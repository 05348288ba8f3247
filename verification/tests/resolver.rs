use bcachefs_debug::catalog::{Catalog, FieldLayout, FieldPlace, KeyTypeLayout};
use bcachefs_debug::command::{Command, DumpCommand, UpdateCommand, UpdateOperator};
use bcachefs_debug::dispatch::{do_command, dump, execute, update, usage, CommandOutcome, Instruction};
use bcachefs_debug::listing::list_bkeys;
use bcachefs_debug::parser::parse_command;
use bcachefs_debug::position::BTreePosition;
use bcachefs_debug::resolver::{
    is_inode_unpacked, resolve, select_tag, strip_prefix, FieldResolutionError, KeyTypeTag,
    ResolvedUpdate, Stream,
};

fn field(path: &str, offset: u32, size: u32) -> FieldLayout {
    FieldLayout { path: path.to_string(), place: FieldPlace { offset, size } }
}

fn names(list: &[&str]) -> Vec<String> {
    list.iter().map(|name| name.to_string()).collect()
}

fn sample_catalog() -> Catalog {
    Catalog {
        btrees: names(&["extents", "inodes", "dirents"]),
        key_types: names(&["deleted", "whiteout", "extent", "inode_v3"]),
        layouts: vec![
            KeyTypeLayout {
                name: "bch_extent".to_string(),
                fields: vec![field("size", 8, 4), field("v.flags", 16, 8)],
            },
            KeyTypeLayout {
                name: "bch_inode_unpacked".to_string(),
                fields: vec![field("bi_size", 24, 8), field("bi_mode", 40, 2)],
            },
            KeyTypeLayout { name: "bch_inode_v3".to_string(), fields: vec![] },
        ],
    }
}

fn update_of(line: &str) -> UpdateCommand {
    match parse_command(line) {
        Ok(Command::Update(update)) => update,
        other => panic!("not an update: {:?}", other),
    }
}

#[test]
fn names_are_found_at_their_index() {
    let catalog = sample_catalog();
    assert_eq!(catalog.btree_id("extents"), Some(0));
    assert_eq!(catalog.btree_id("dirents"), Some(2));
    assert_eq!(catalog.btree_id("extent"), None);
    assert_eq!(catalog.btree_id(""), None);
    assert_eq!(catalog.key_type_tag("extent"), Some(2));
    assert_eq!(catalog.key_type_tag("bch_extent"), None);
    assert_eq!(catalog.field_place("bch_extent", "size"), Some(FieldPlace { offset: 8, size: 4 }));
    assert_eq!(
        catalog.field_place("bch_extent", "v.flags"),
        Some(FieldPlace { offset: 16, size: 8 })
    );
    assert_eq!(catalog.field_place("bch_extent", "v"), None);
    assert_eq!(catalog.field_place("bch_inode_v3", "size"), None);
    assert_eq!(catalog.field_place("extent", "size"), None);
}

#[test]
fn first_entry_of_a_repeated_name_counts() {
    let catalog = Catalog {
        btrees: names(&["a", "b", "a"]),
        key_types: names(&[]),
        layouts: vec![
            KeyTypeLayout { name: "t".to_string(), fields: vec![field("f", 1, 2), field("f", 3, 4)] },
            KeyTypeLayout { name: "t".to_string(), fields: vec![field("g", 5, 6)] },
        ],
    };
    assert_eq!(catalog.btree_id("a"), Some(0));
    assert_eq!(catalog.btree_id("b"), Some(1));
    assert_eq!(catalog.field_place("t", "f"), Some(FieldPlace { offset: 1, size: 2 }));
    assert_eq!(catalog.field_place("t", "g"), None);
}

#[test]
fn key_type_prefix_is_stripped_for_the_tag_lookup() {
    assert_eq!(strip_prefix("bch_extent"), Some("extent".to_string()));
    assert_eq!(strip_prefix("bch_inode_unpacked"), Some("inode_unpacked".to_string()));
    assert_eq!(strip_prefix("bch_"), Some(String::new()));
    assert_eq!(strip_prefix("extent"), None);
    assert_eq!(strip_prefix("bch"), None);
    assert_eq!(strip_prefix("Bch_extent"), None);
    assert_eq!(strip_prefix(""), None);
    assert!(is_inode_unpacked("bch_inode_unpacked"));
    assert!(!is_inode_unpacked("bch_inode_unpacked2"));
    assert!(!is_inode_unpacked("bch_inode_unpacke"));
    assert!(!is_inode_unpacked("inode_unpacked"));
    let catalog = sample_catalog();
    assert_eq!(select_tag(&catalog, "bch_extent"), Some(KeyTypeTag::Tag(2)));
    assert_eq!(select_tag(&catalog, "bch_deleted"), Some(KeyTypeTag::Tag(0)));
    assert_eq!(select_tag(&catalog, "bch_inode_unpacked"), Some(KeyTypeTag::Max));
    assert_eq!(select_tag(&catalog, "extent"), None);
    assert_eq!(select_tag(&catalog, "bch_nosuch"), None);
}

#[test]
fn update_resolves_with_the_stripped_key_type() {
    let catalog = sample_catalog();
    let update = update_of("update extents 5:100:0 bch_extent.size=42");
    assert_eq!(update.key_type_name, "bch_extent");
    assert_eq!(strip_prefix(&update.key_type_name), Some("extent".to_string()));
    assert_eq!(select_tag(&catalog, "bch_extent"), Some(KeyTypeTag::Tag(2)));
    assert_eq!(
        resolve(&catalog, &update),
        Ok(ResolvedUpdate {
            btree_id: 0,
            key_type_tag: KeyTypeTag::Tag(2),
            is_inode_unpacked: false,
            field_offset: 8,
            field_size: 4,
            operator: UpdateOperator::Assign,
            value: 42,
            position: BTreePosition { inode: 5, offset: 100, snapshot: 0 },
        })
    );
}

#[test]
fn unpacked_inode_bypasses_the_tag_lookup() {
    let expected = Ok(ResolvedUpdate {
        btree_id: 1,
        key_type_tag: KeyTypeTag::Max,
        is_inode_unpacked: true,
        field_offset: 24,
        field_size: 8,
        operator: UpdateOperator::Add,
        value: 100,
        position: BTreePosition { inode: 1, offset: 0, snapshot: 0 },
    });
    let update = update_of("update inodes 1:0:0 bch_inode_unpacked.bi_size+=100");
    let mut catalog = sample_catalog();
    assert_eq!(catalog.key_type_tag("inode_unpacked"), None);
    assert_eq!(resolve(&catalog, &update), expected);
    catalog.key_types.push("inode_unpacked".to_string());
    assert_eq!(catalog.key_type_tag("inode_unpacked"), Some(4));
    assert_eq!(resolve(&catalog, &update), expected);
    catalog.key_types.clear();
    assert_eq!(resolve(&catalog, &update), expected);
}

#[test]
fn unknown_field_is_reported_and_not_updated() {
    let catalog = sample_catalog();
    let update_cmd = update_of("update extents 5:100:0 bch_extent.bogus=1");
    assert_eq!(
        resolve(&catalog, &update_cmd),
        Err(FieldResolutionError::UnknownField { path: "bogus".to_string() })
    );
    assert_eq!(
        update(&catalog, &update_cmd),
        Instruction::Report { stream: Stream::Output, text: "unknown field 'bogus'".to_string() }
    );
}

#[test]
fn first_unknown_name_is_the_error() {
    let catalog = sample_catalog();
    assert_eq!(
        resolve(&catalog, &update_of("update nosuch 5:100:0 bch_bogus.bogus=1")),
        Err(FieldResolutionError::UnknownBtree { name: "nosuch".to_string() })
    );
    assert_eq!(
        resolve(&catalog, &update_of("update extents 5:100:0 bch_bogus.bogus=1")),
        Err(FieldResolutionError::UnknownKeyType { name: "bch_bogus".to_string() })
    );
    assert_eq!(
        resolve(&catalog, &update_of("update extents 5:100:0 extent.size=1")),
        Err(FieldResolutionError::UnknownKeyType { name: "extent".to_string() })
    );
    assert_eq!(
        resolve(&catalog, &update_of("update extents 5:100:0 bc.size=1")),
        Err(FieldResolutionError::UnknownKeyType { name: "bc".to_string() })
    );
    assert_eq!(
        resolve(&catalog, &update_of("update extents 5:100:0 bch_.size=1")),
        Err(FieldResolutionError::UnknownKeyType { name: "bch_".to_string() })
    );
    assert_eq!(
        resolve(&catalog, &update_of("update extents 5:100:0 bch_inode_v3.size=1")),
        Err(FieldResolutionError::UnknownField { path: "size".to_string() })
    );
    assert_eq!(
        resolve(&catalog, &update_of("update extents 5:100:0 bch_whiteout.size=1")),
        Err(FieldResolutionError::UnknownField { path: "size".to_string() })
    );
}

#[test]
fn resolution_errors_render_and_choose_their_stream() {
    let btree = FieldResolutionError::UnknownBtree { name: "x".to_string() };
    let key_type = FieldResolutionError::UnknownKeyType { name: "bch_y".to_string() };
    let field = FieldResolutionError::UnknownField { path: "a.b".to_string() };
    assert_eq!(btree.message(), "unknown btree 'x'");
    assert_eq!(key_type.message(), "unknown bkey type 'bch_y'");
    assert_eq!(field.message(), "unknown field 'a.b'");
    assert_eq!(btree.stream(), Stream::Diagnostic);
    assert_eq!(key_type.stream(), Stream::Diagnostic);
    assert_eq!(field.stream(), Stream::Output);
}

#[test]
fn dump_calls_the_engine_or_reports_the_btree() {
    let catalog = sample_catalog();
    let position = BTreePosition { inode: 5, offset: 100, snapshot: u32::MAX };
    assert_eq!(
        dump(&catalog, &DumpCommand { btree_name: "inodes".to_string(), position }),
        Instruction::DumpKey { btree_id: 1, position }
    );
    assert_eq!(
        dump(&catalog, &DumpCommand { btree_name: "nosuch".to_string(), position }),
        Instruction::Report {
            stream: Stream::Diagnostic,
            text: "unknown btree 'nosuch'".to_string()
        }
    );
}

#[test]
fn update_reports_unknown_names_as_diagnostics() {
    let catalog = sample_catalog();
    assert_eq!(
        execute(&catalog, &Command::Update(update_of("update nosuch 1:2:3 bch_extent.size=1"))),
        Instruction::Report {
            stream: Stream::Diagnostic,
            text: "unknown btree 'nosuch'".to_string()
        }
    );
    assert_eq!(
        execute(&catalog, &Command::Update(update_of("update extents 1:2:3 bch_nosuch.size=1"))),
        Instruction::Report {
            stream: Stream::Diagnostic,
            text: "unknown bkey type 'bch_nosuch'".to_string()
        }
    );
}

#[test]
fn usage_lists_both_forms() {
    assert_eq!(
        usage(),
        "Usage:\n    dump <btree_type> <bpos>\n    update <btree_type> <bpos> <bkey_type>.<field>=<value>"
    );
}

#[test]
fn lines_are_handled_or_rejected_with_usage() {
    let catalog = sample_catalog();
    assert_eq!(
        do_command(&catalog, "dump extents 5:100:0"),
        CommandOutcome {
            status: 0,
            instruction: Instruction::DumpKey {
                btree_id: 0,
                position: BTreePosition { inode: 5, offset: 100, snapshot: 0 }
            }
        }
    );
    assert_eq!(
        do_command(&catalog, "dump nosuch 5:100:0"),
        CommandOutcome {
            status: 0,
            instruction: Instruction::Report {
                stream: Stream::Diagnostic,
                text: "unknown btree 'nosuch'".to_string()
            }
        }
    );
    assert_eq!(
        do_command(&catalog, "dmp extents 5:100:0"),
        CommandOutcome {
            status: 1,
            instruction: Instruction::Report {
                stream: Stream::Output,
                text: format!("unknown command 'dmp extents 5:100:0'\n{}", usage()),
            }
        }
    );
    assert_eq!(
        do_command(&catalog, "dump extents 5:100"),
        CommandOutcome {
            status: 1,
            instruction: Instruction::Report {
                stream: Stream::Output,
                text: format!("syntax error at ''\n{}", usage()),
            }
        }
    );
}

#[test]
fn key_types_are_listed_with_their_fields() {
    assert_eq!(
        list_bkeys(&sample_catalog()),
        "bch_extent\n    size 8 4\n    v.flags 16 8\nbch_inode_unpacked\n    bi_size 24 8\n    bi_mode 40 2\nbch_inode_v3\n"
    );
    assert_eq!(list_bkeys(&Catalog { btrees: vec![], key_types: vec![], layouts: vec![] }), "");
}
