use bcachefs_debug::command::{Command, DumpCommand, ParseError, UpdateCommand, UpdateOperator};
use bcachefs_debug::parser::{parse_bpos, parse_command, scan_operator};
use bcachefs_debug::position::BTreePosition;
use bcachefs_debug::text::to_chars;

fn at(inode: u64, offset: u64, snapshot: u32) -> BTreePosition {
    BTreePosition { inode, offset, snapshot }
}

fn syntax(remainder: &str) -> ParseError {
    ParseError::Syntax { remainder: remainder.to_string() }
}

#[test]
fn dump_line_parses() {
    assert_eq!(
        parse_command("dump extents 5:100:0"),
        Ok(Command::Dump(DumpCommand { btree_name: "extents".to_string(), position: at(5, 100, 0) }))
    );
}

#[test]
fn update_line_parses_and_keeps_the_key_type_as_written() {
    assert_eq!(
        parse_command("update extents 5:100:0 bch_extent.size=42"),
        Ok(Command::Update(UpdateCommand {
            btree_name: "extents".to_string(),
            position: at(5, 100, 0),
            key_type_name: "bch_extent".to_string(),
            field_path: "size".to_string(),
            operator: UpdateOperator::Assign,
            value: 42,
        }))
    );
}

#[test]
fn add_operator_wins_over_assign() {
    let chars = to_chars("x+=5");
    assert_eq!(scan_operator(&chars, 1), Some((UpdateOperator::Add, 3)));
    assert_eq!(scan_operator(&chars, 2), Some((UpdateOperator::Assign, 3)));
    assert_eq!(scan_operator(&chars, 0), None);
    match parse_command("update inodes 1:0:0 bch_inode_unpacked.bi_size+=100") {
        Ok(Command::Update(update)) => {
            assert_eq!(update.operator, UpdateOperator::Add);
            assert_eq!(update.value, 100);
            assert_eq!(update.key_type_name, "bch_inode_unpacked");
            assert_eq!(update.field_path, "bi_size");
        }
        other => panic!("not an update: {:?}", other),
    }
}

#[test]
fn sentinel_is_the_greatest_snapshot() {
    assert_eq!(parse_bpos("1:2:U32_MAX"), Ok((at(1, 2, u32::MAX), 11)));
    assert_eq!(parse_bpos("1:2:4294967295"), Ok((at(1, 2, u32::MAX), 14)));
    assert_eq!(parse_bpos("1:2:4294967294"), Ok((at(1, 2, 4294967294), 14)));
    assert_eq!(parse_bpos("1:2:4294967296"), Err(syntax("4294967296")));
    assert_eq!(parse_bpos("18446744073709551615:0:0"), Ok((at(u64::MAX, 0, 0), 24)));
    assert_eq!(parse_bpos("18446744073709551616:0:0"), Err(syntax("18446744073709551616:0:0")));
}

#[test]
fn position_stops_at_the_first_broken_element() {
    assert_eq!(parse_bpos(""), Err(syntax("")));
    assert_eq!(parse_bpos("5"), Err(syntax("")));
    assert_eq!(parse_bpos("5;100:0"), Err(syntax(";100:0")));
    assert_eq!(parse_bpos("5:x:0"), Err(syntax("x:0")));
    assert_eq!(parse_bpos("5:100"), Err(syntax("")));
    assert_eq!(parse_bpos("5:100:"), Err(syntax("")));
    assert_eq!(parse_bpos("5:100:U32_MA"), Err(syntax("U32_MA")));
    assert_eq!(parse_bpos("005:0100:00 rest"), Ok((at(5, 100, 0), 11)));
}

#[test]
fn trailing_text_is_a_syntax_error() {
    assert_eq!(parse_command("dump extents 5:100:0 "), Err(syntax(" ")));
    assert_eq!(parse_command("dump extents 5:100:0x"), Err(syntax("x")));
    assert_eq!(parse_command("dump extents 5:100:U32_MAX1"), Err(syntax("1")));
    assert_eq!(parse_command("update extents 5:100:0 bch_extent.size=42 "), Err(syntax(" ")));
    assert_eq!(parse_command("update extents 5:100:0 bch_extent.size=42;"), Err(syntax(";")));
    assert_eq!(
        parse_command("dump extents 5:100:01"),
        Ok(Command::Dump(DumpCommand { btree_name: "extents".to_string(), position: at(5, 100, 1) }))
    );
    assert_eq!(parse_command("dump extents 5:100:42949672950"), Err(syntax("42949672950")));
}

#[test]
fn unknown_keyword_is_an_unknown_command() {
    assert_eq!(
        parse_command("dmp extents 5:100:0"),
        Err(ParseError::UnknownCommand { line: "dmp extents 5:100:0".to_string() })
    );
    assert_eq!(parse_command(""), Err(ParseError::UnknownCommand { line: String::new() }));
    assert_eq!(
        parse_command(" dump extents 5:100:0"),
        Err(ParseError::UnknownCommand { line: " dump extents 5:100:0".to_string() })
    );
    assert_eq!(
        parse_command("Dump extents 5:100:0"),
        Err(ParseError::UnknownCommand { line: "Dump extents 5:100:0".to_string() })
    );
}

#[test]
fn broken_forms_name_the_place() {
    assert_eq!(parse_command("dump"), Err(syntax("")));
    assert_eq!(parse_command("dumpextents 5:100:0"), Err(syntax("extents 5:100:0")));
    assert_eq!(parse_command("dump  5:100:0"), Err(syntax("5:100:0")));
    assert_eq!(parse_command("dump ext3nts 5:100:0"), Err(syntax("3nts 5:100:0")));
    assert_eq!(parse_command("dump extents\n5:100:0"), Err(syntax("\n5:100:0")));
    assert_eq!(parse_command("dump \u{e9}t\u{e9} 5:100:0"), Err(syntax("\u{e9}t\u{e9} 5:100:0")));
    assert_eq!(parse_command("update extents 5:100:0"), Err(syntax("")));
    assert_eq!(parse_command("update extents 5:100:0 .size=1"), Err(syntax(".size=1")));
    assert_eq!(parse_command("update extents 5:100:0 bch_extent=1"), Err(syntax("=1")));
    assert_eq!(parse_command("update extents 5:100:0 bch_extent.=1"), Err(syntax("=1")));
    assert_eq!(parse_command("update extents 5:100:0 bch_extent.size 1"), Err(syntax(" 1")));
    assert_eq!(parse_command("update extents 5:100:0 bch_extent.size+1"), Err(syntax("+1")));
    assert_eq!(parse_command("update extents 5:100:0 bch_extent.size="), Err(syntax("")));
    assert_eq!(parse_command("update extents 5:100:0 bch_extent.size= 1"), Err(syntax(" 1")));
    assert_eq!(
        parse_command("update extents 5:100:0 bch_extent.size=18446744073709551616"),
        Err(syntax("18446744073709551616"))
    );
}

#[test]
fn blanks_are_spaces_and_tabs_in_any_number() {
    assert_eq!(
        parse_command("dump \t extents\t\t5:100:0"),
        Ok(Command::Dump(DumpCommand { btree_name: "extents".to_string(), position: at(5, 100, 0) }))
    );
    assert_eq!(
        parse_command("update  inodes \t4096:0:U32_MAX\tbch_inode_v3.a.b_c.d2+=18446744073709551615"),
        Ok(Command::Update(UpdateCommand {
            btree_name: "inodes".to_string(),
            position: at(4096, 0, u32::MAX),
            key_type_name: "bch_inode_v3".to_string(),
            field_path: "a.b_c.d2".to_string(),
            operator: UpdateOperator::Add,
            value: u64::MAX,
        }))
    );
}

#[test]
fn parse_errors_render_for_the_user() {
    assert_eq!(syntax("x").message(), "syntax error at 'x'");
    assert_eq!(
        ParseError::UnknownCommand { line: "dmp".to_string() }.message(),
        "unknown command 'dmp'"
    );
}
