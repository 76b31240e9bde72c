use collurgy::catalog::{adopt_default_extras, collect_exporters};
use collurgy::exporter::Exporter;
use collurgy::name_map::NameMap;
use collurgy::palette::{Palette, Swatch};

fn exporter(name: &str, formatter: &str, extras: Option<&[(&str, usize)]>) -> Exporter {
    let extras = extras.map(|pairs| {
        let mut map = NameMap::new();
        for (name, slot) in pairs {
            map.insert(name, *slot);
        }
        map
    });
    Exporter { name: name.to_string(), formatter: formatter.to_string(), path: None, extras }
}

#[test]
fn an_empty_catalog() {
    let catalog = collect_exporters(Vec::new(), Vec::new());
    assert_eq!(catalog.len(), 0);
    assert!(catalog.get("vim").is_none());
}

#[test]
fn exporters_stand_under_their_names() {
    let catalog = collect_exporters(
        vec![exporter("vim", "v", None), exporter("kitty", "k", None)],
        vec![exporter("mine", "m", None)],
    );
    assert_eq!(catalog.len(), 3);
    assert_eq!(catalog.get("vim").unwrap().formatter, "v");
    assert_eq!(catalog.get("kitty").unwrap().formatter, "k");
    assert_eq!(catalog.get("mine").unwrap().formatter, "m");
    assert!(!catalog.contains_key("i3"));
}

#[test]
fn the_last_exporter_of_a_name_wins() {
    let catalog = collect_exporters(
        vec![exporter("vim", "built in", None), exporter("kitty", "k", None)],
        vec![exporter("vim", "first found", None), exporter("vim", "second found", None)],
    );
    assert_eq!(catalog.len(), 2);
    assert_eq!(catalog.get("vim").unwrap().formatter, "second found");
    assert_eq!(catalog.get("kitty").unwrap().formatter, "k");
}

#[test]
fn built_ins_load_first() {
    let catalog = collect_exporters(
        vec![exporter("a", "built in a", None), exporter("b", "built in b", None)],
        vec![exporter("b", "found b", None)],
    );
    assert_eq!(catalog.name_at(0).unwrap(), "a");
    assert_eq!(catalog.name_at(1).unwrap(), "b");
    assert_eq!(catalog.get("a").unwrap().formatter, "built in a");
    assert_eq!(catalog.get("b").unwrap().formatter, "found b");
}

#[test]
fn a_theme_adopts_the_defaults_it_lacks() {
    let catalog = collect_exporters(
        vec![
            exporter("kitty", "k", Some(&[("cursor", 5), ("url", 4)])),
            exporter("vim", "v", None),
            exporter("i3", "i", Some(&[("focus", 11)])),
        ],
        Vec::new(),
    );
    let mut book: NameMap<NameMap<usize>> = NameMap::new();
    let mut own = NameMap::new();
    own.insert("focus", 2);
    book.insert("i3", own);
    adopt_default_extras(&mut book, &catalog);
    assert_eq!(book.len(), 2);
    assert_eq!(book.get("i3").unwrap().get("focus"), Some(&2));
    assert_eq!(book.get("i3").unwrap().len(), 1);
    let kitty = book.get("kitty").unwrap();
    assert_eq!(kitty.len(), 2);
    assert_eq!(kitty.get("cursor"), Some(&5));
    assert_eq!(kitty.get("url"), Some(&4));
    assert!(book.get("vim").is_none());
}

#[test]
fn adopting_twice_changes_nothing_more() {
    let catalog =
        collect_exporters(vec![exporter("kitty", "k", Some(&[("cursor", 5)]))], Vec::new());
    let mut book: NameMap<NameMap<usize>> = NameMap::new();
    adopt_default_extras(&mut book, &catalog);
    let mut changed = NameMap::new();
    changed.insert("cursor", 9);
    book.insert("kitty", changed);
    adopt_default_extras(&mut book, &catalog);
    assert_eq!(book.len(), 1);
    assert_eq!(book.get("kitty").unwrap().get("cursor"), Some(&9));
}

#[test]
fn adoption_changes_no_export() {
    let swatches: Vec<Swatch> = (0..16u8)
        .map(|n| Swatch { irgb: [n, n, n], frgb: [n, n, n].map(|c: u8| c.to_string()) })
        .collect();
    let palette = Palette::new(swatches).unwrap();
    let catalog = collect_exporters(
        vec![
            exporter("kitty", "{cursorR} {urlR}", Some(&[("cursor", 5), ("url", 4)])),
            exporter("vim", "{cursorR}", None),
            exporter("i3", "{focusR}", Some(&[("focus", 11)])),
        ],
        Vec::new(),
    );
    let mut book: NameMap<NameMap<usize>> = NameMap::new();
    let mut own = NameMap::new();
    own.insert("focus", 2);
    book.insert("i3", own);
    let before: Vec<String> = ["kitty", "vim", "i3"]
        .iter()
        .map(|name| catalog.get(name).unwrap().export(&palette, 0, &book))
        .collect();
    assert_eq!(before, vec!["5 4", "{cursorR}", "2"]);
    adopt_default_extras(&mut book, &catalog);
    let after: Vec<String> = ["kitty", "vim", "i3"]
        .iter()
        .map(|name| catalog.get(name).unwrap().export(&palette, 0, &book))
        .collect();
    assert_eq!(after, before);
}

#[test]
fn adopted_entries_follow_the_theme_s_own_in_catalog_order() {
    let catalog = collect_exporters(
        vec![
            exporter("b", "", Some(&[("x", 1)])),
            exporter("a", "", Some(&[("y", 2)])),
            exporter("c", "", None),
        ],
        Vec::new(),
    );
    let mut book: NameMap<NameMap<usize>> = NameMap::new();
    book.insert("z", NameMap::new());
    adopt_default_extras(&mut book, &catalog);
    assert_eq!(book.len(), 3);
    assert_eq!(book.name_at(0).unwrap(), "z");
    assert_eq!(book.name_at(1).unwrap(), "b");
    assert_eq!(book.name_at(2).unwrap(), "a");
}
