use bcachefs_debug::command::{Command, DumpCommand, UpdateCommand, UpdateOperator};
use bcachefs_debug::parser::{parse_bpos, parse_command};
use bcachefs_debug::position::BTreePosition;
use bcachefs_debug::text::{render_number, scan, scan_number, to_chars, match_literal, CharClass};

#[test]
fn numbers_render_without_leading_zeros() {
    assert_eq!(render_number(0), "0");
    assert_eq!(render_number(7), "7");
    assert_eq!(render_number(10), "10");
    assert_eq!(render_number(4096), "4096");
    assert_eq!(render_number(u64::MAX), "18446744073709551615");
}

#[test]
fn positions_render_with_the_sentinel() {
    assert_eq!(BTreePosition { inode: 5, offset: 100, snapshot: 0 }.render(), "5:100:0");
    assert_eq!(
        BTreePosition { inode: 0, offset: u64::MAX, snapshot: u32::MAX }.render(),
        "0:18446744073709551615:U32_MAX"
    );
    assert_eq!(
        BTreePosition { inode: 1, offset: 2, snapshot: 4294967294 }.render(),
        "1:2:4294967294"
    );
}

#[test]
fn position_text_round_trips_on_the_numbers() {
    for text in ["5:100:0", "005:0100:000", "0:0:4294967294", "18446744073709551615:1:7"] {
        let (position, end) = parse_bpos(text).unwrap();
        assert_eq!(end, text.len());
        let rendered = position.render();
        assert_eq!(parse_bpos(&rendered), Ok((position, rendered.len())));
    }
    let (position, _) = parse_bpos("005:0100:000").unwrap();
    assert_eq!(position, BTreePosition { inode: 5, offset: 100, snapshot: 0 });
    assert_eq!(position.render(), "5:100:0");
}

#[test]
fn commands_render_canonically() {
    let dump = Command::Dump(DumpCommand {
        btree_name: "extents".to_string(),
        position: BTreePosition { inode: 5, offset: 100, snapshot: 0 },
    });
    assert_eq!(dump.render(), "dump extents 5:100:0");
    let update = Command::Update(UpdateCommand {
        btree_name: "inodes".to_string(),
        position: BTreePosition { inode: 1, offset: 0, snapshot: u32::MAX },
        key_type_name: "bch_inode_unpacked".to_string(),
        field_path: "bi_size".to_string(),
        operator: UpdateOperator::Add,
        value: 100,
    });
    assert_eq!(update.render(), "update inodes 1:0:U32_MAX bch_inode_unpacked.bi_size+=100");
    assert_eq!(UpdateOperator::Assign.render(), "=");
    assert_eq!(UpdateOperator::Add.render(), "+=");
}

#[test]
fn reparsing_the_rendering_gives_the_command_again() {
    for line in [
        "dump extents 5:100:0",
        "dump \t extents  005:0100:4294967295",
        "dump x 0:0:U32_MAX",
        "update extents 5:100:0 bch_extent.size=42",
        "update  inodes\t1:0:0   bch_inode_unpacked.bi_size+=0100",
        "update a 1:2:3 _.._=18446744073709551615",
    ] {
        let command = parse_command(line).unwrap();
        assert_eq!(parse_command(&command.render()), Ok(command));
    }
}

#[test]
fn a_digit_behind_a_command_makes_its_last_number_longer() {
    let dump = |snapshot| {
        Ok(Command::Dump(DumpCommand {
            btree_name: "e".to_string(),
            position: BTreePosition { inode: 1, offset: 2, snapshot },
        }))
    };
    assert_eq!(parse_command("dump e 1:2:42949672"), dump(42949672));
    assert_eq!(parse_command("dump e 1:2:429496729"), dump(429496729));
    assert_eq!(parse_command("dump e 1:2:4294967295"), dump(u32::MAX));
    assert!(parse_command("dump e 1:2:42949672950").is_err());
    assert!(parse_command("dump e 1:2:U32_MAX0").is_err());
    assert!(parse_command("update e 1:2:3 k.f=18446744073709551615").is_ok());
    assert!(parse_command("update e 1:2:3 k.f=184467440737095516150").is_err());
}

#[test]
fn runs_end_at_the_first_character_outside_the_class() {
    let chars = to_chars("ab1_.c \t9");
    assert_eq!(chars.len(), 9);
    assert_eq!(scan(&chars, CharClass::Letter, 0), 2);
    assert_eq!(scan(&chars, CharClass::Word, 0), 4);
    assert_eq!(scan(&chars, CharClass::Path, 0), 6);
    assert_eq!(scan(&chars, CharClass::Digit, 0), 0);
    assert_eq!(scan(&chars, CharClass::Digit, 2), 3);
    assert_eq!(scan(&chars, CharClass::Blank, 6), 8);
    assert_eq!(scan(&chars, CharClass::Digit, 8), 9);
    assert_eq!(scan(&chars, CharClass::Digit, 9), 9);
    for (class, members) in [
        (CharClass::Digit, "0123456789"),
        (CharClass::Letter, "azAZmM"),
        (CharClass::Word, "azAZ09_"),
        (CharClass::Path, "azAZ09_."),
        (CharClass::Blank, " \t"),
    ] {
        for c in members.chars() {
            assert!(class.has(c));
        }
        for c in "/:@[`{-+=\n\r\u{e9}\u{661}".chars() {
            assert!(!class.has(c));
        }
    }
    assert!(!CharClass::Letter.has('0'));
    assert!(!CharClass::Digit.has('a'));
    assert!(!CharClass::Word.has('.'));
    assert!(!CharClass::Blank.has('\n'));
}

#[test]
fn numerals_are_read_up_to_their_bound() {
    let chars = to_chars("0255x256");
    assert_eq!(scan_number(&chars, 0, 255), Some((255, 4)));
    assert_eq!(scan_number(&chars, 1, 255), Some((255, 4)));
    assert_eq!(scan_number(&chars, 5, 255), None);
    assert_eq!(scan_number(&chars, 5, 256), Some((256, 8)));
    assert_eq!(scan_number(&chars, 4, 255), None);
    assert_eq!(scan_number(&chars, 8, 255), None);
    assert_eq!(scan_number(&chars, 7, 5), None);
    assert_eq!(scan_number(&chars, 7, 6), Some((6, 8)));
    let zeros = to_chars("00000000000000000000000000000000000001");
    assert_eq!(scan_number(&zeros, 0, 1), Some((1, 38)));
    assert_eq!(scan_number(&zeros, 0, 0), None);
}

#[test]
fn literals_match_where_they_stand() {
    let chars = to_chars("update");
    assert!(match_literal(&chars, 0, "update"));
    assert!(match_literal(&chars, 0, "up"));
    assert!(match_literal(&chars, 2, "date"));
    assert!(match_literal(&chars, 6, ""));
    assert!(!match_literal(&chars, 0, "updates"));
    assert!(!match_literal(&chars, 1, "update"));
    assert!(!match_literal(&chars, 0, "dump"));
}
