use blocklist::config::{
    BlockListConfig, FileConfig, ForwardConfig, RecursiveConfig, SqliteConfig, StoreConfig,
    StoreConfigElement, StoreKind,
};

fn blocklist() -> StoreConfigElement {
    StoreConfigElement::BlockList(BlockListConfig {
        lists: vec!["default/bl.txt".to_string(), "default/bl2.txt".to_string()],
        wildcard_match: true,
        min_wildcard_depth: 2,
    })
}

fn recursor() -> StoreConfigElement {
    StoreConfigElement::Recursor(RecursiveConfig { roots: "default/root.zone".to_string() })
}

#[test]
fn single_store_is_a_chain_of_one() {
    let config = StoreConfig::Single(blocklist());
    assert_eq!(config.len(), 1);
    assert_eq!(config.get(0), Some(&blocklist()));
    assert_eq!(config.get(1), None);
}

#[test]
fn chained_stores_keep_their_order() {
    let config = StoreConfig::Chained(vec![blocklist(), recursor()]);
    assert_eq!(config.len(), 2);
    assert_eq!(config.get(0), Some(&blocklist()));
    assert_eq!(config.get(1), Some(&recursor()));
    assert_eq!(config.get(2), None);
    assert_eq!(StoreConfig::Chained(Vec::new()).len(), 0);
    assert_eq!(StoreConfig::Chained(Vec::new()).get(0), None);
}

#[test]
fn every_element_has_its_kind() {
    assert_eq!(blocklist().kind(), StoreKind::Blocklist);
    assert_eq!(recursor().kind(), StoreKind::Recursor);
    let file = StoreConfigElement::File(FileConfig { zone_file_path: "example.zone".to_string() });
    assert_eq!(file.kind(), StoreKind::File);
    let sqlite = StoreConfigElement::Sqlite(SqliteConfig {
        zone_file_path: "example.zone".to_string(),
        journal_file_path: "example.jrnl".to_string(),
        allow_update: false,
    });
    assert_eq!(sqlite.kind(), StoreKind::Database);
    let forward =
        StoreConfigElement::Forward(ForwardConfig { name_servers: vec!["192.0.2.53:53".to_string()] });
    assert_eq!(forward.kind(), StoreKind::Forward);
}

#[test]
fn list_paths_are_resolved_against_the_root() {
    let config = BlockListConfig {
        lists: vec!["default/bl.txt".to_string(), "bl2.txt".to_string(), String::new()],
        wildcard_match: false,
        min_wildcard_depth: 0,
    };
    assert_eq!(
        config.list_paths("/etc/named"),
        vec!["/etc/named/default/bl.txt", "/etc/named/bl2.txt", "/etc/named/"]
    );
    assert_eq!(config.list_paths(""), vec!["/default/bl.txt", "/bl2.txt", "/"]);
    let none = BlockListConfig { lists: Vec::new(), wildcard_match: true, min_wildcard_depth: 2 };
    assert_eq!(none.list_paths("root"), Vec::<String>::new());
}
