use pkg_install::roots::{ExtractionRootTable, ProductVariant};

#[test]
fn player_table_maps_known_archives() {
    let t = ExtractionRootTable::for_variant(ProductVariant::WindowsPlayer);
    assert_eq!(t.root_for("shaders.zip"), "shaders/");
    assert_eq!(t.root_for("content-sky.zip"), "content/sky/");
    assert_eq!(t.root_for("content-textures2.zip"), "content/textures/");
    assert_eq!(
        t.root_for("content-platform-dictionaries.zip"),
        "PlatformContent/pc/shared_compression_dictionaries/"
    );
    assert_eq!(t.root_for("extracontent-places.zip"), "ExtraContent/places/");
    assert_eq!(t.root_for("WebView2RuntimeInstaller.zip"), "WebView2RuntimeInstaller/");
}

#[test]
fn player_table_maps_root_archives_to_install_root() {
    let t = ExtractionRootTable::for_variant(ProductVariant::WindowsPlayer);
    assert_eq!(t.root_for("RobloxApp.zip"), "");
    assert_eq!(t.root_for("redist.zip"), "");
    assert_eq!(t.root_for("WebView2.zip"), "");
}

#[test]
fn unknown_archive_goes_to_install_root() {
    let t = ExtractionRootTable::for_variant(ProductVariant::WindowsPlayer);
    assert_eq!(t.root_for("unknown.zip"), "");
    assert_eq!(t.root_for("SHADERS.zip"), "");
}

#[test]
fn later_insert_replaces_earlier() {
    let mut t = ExtractionRootTable::new();
    t.insert("b.zip", "one/");
    t.insert("b.zip", "sub/");
    t.insert("c.zip", "c/");
    assert_eq!(t.root_for("b.zip"), "sub/");
    assert_eq!(t.root_for("c.zip"), "c/");
    assert_eq!(t.root_for("a.zip"), "");
}

#[test]
fn player_table_keeps_files_inside() {
    assert!(ExtractionRootTable::for_variant(ProductVariant::WindowsPlayer).keeps_inside());
}

#[test]
fn escaping_roots_are_detected() {
    let mut t = ExtractionRootTable::new();
    t.insert("a.zip", "sub/");
    assert!(t.keeps_inside());
    t.insert("b.zip", "../up/");
    assert!(!t.keeps_inside());
    let mut t = ExtractionRootTable::new();
    t.insert("c.zip", "no-separator");
    assert!(!t.keeps_inside());
    let mut t = ExtractionRootTable::new();
    t.insert("d.zip", "/abs/");
    assert!(!t.keeps_inside());
}
