use bcachefs_debug::command::{Command, DumpCommand, ParseError, UpdateCommand, UpdateOperator};
use bcachefs_debug::parser::parse_command;
use bcachefs_debug::position::BTreePosition;
use nom::branch::alt;
use nom::bytes::complete::{tag, take_while1};
use nom::character::complete::{alpha1, char, space1, u32, u64};
use nom::combinator::{all_consuming, value};
use nom::sequence::tuple;
use nom::IResult;

// The same language written with nom's combinators, to hold the library's
// parser against.

fn bpos(input: &str) -> IResult<&str, BTreePosition> {
    let (input, (inode, _, offset, _, snapshot)) =
        tuple((u64, char(':'), u64, char(':'), alt((u32, value(u32::MAX, tag("U32_MAX"))))))(
            input,
        )?;
    Ok((input, BTreePosition { inode, offset, snapshot }))
}

fn dump_rest(input: &str) -> IResult<&str, Command> {
    let (input, (_, btree, _, position)) =
        all_consuming(tuple((space1, alpha1, space1, bpos)))(input)?;
    Ok((input, Command::Dump(DumpCommand { btree_name: btree.to_string(), position })))
}

fn update_rest(input: &str) -> IResult<&str, Command> {
    let (input, (_, btree, _, position, _, key_type, _, field, operator, number)) =
        all_consuming(tuple((
            space1,
            alpha1,
            space1,
            bpos,
            space1,
            take_while1(|c: char| c.is_ascii_alphanumeric() || c == '_'),
            char('.'),
            take_while1(|c: char| c.is_ascii_alphanumeric() || c == '_' || c == '.'),
            alt((value(UpdateOperator::Add, tag("+=")), value(UpdateOperator::Assign, tag("=")))),
            u64,
        )))(input)?;
    Ok((
        input,
        Command::Update(UpdateCommand {
            btree_name: btree.to_string(),
            position,
            key_type_name: key_type.to_string(),
            field_path: field.to_string(),
            operator,
            value: number,
        }),
    ))
}

fn keyword<'a>(word: &str, input: &'a str) -> Option<&'a str> {
    let matched: IResult<&str, &str> = tag(word)(input);
    matched.ok().map(|(rest, _)| rest)
}

fn with_nom(input: &str) -> Result<Command, ParseError> {
    let parsed = if let Some(rest) = keyword("dump", input) {
        dump_rest(rest)
    } else if let Some(rest) = keyword("update", input) {
        update_rest(rest)
    } else {
        return Err(ParseError::UnknownCommand { line: input.to_string() });
    };
    match parsed {
        Ok((_, command)) => Ok(command),
        Err(nom::Err::Error(error)) | Err(nom::Err::Failure(error)) => {
            Err(ParseError::Syntax { remainder: error.input.to_string() })
        }
        Err(nom::Err::Incomplete(_)) => unreachable!(),
    }
}

const LINES: [&str; 12] = [
    "dump extents 5:100:0",
    "dump extents 5:100:U32_MAX",
    "dump \t inodes\t18446744073709551615:0:4294967295",
    "dump e 18446744073709551616:0:0",
    "dump e 0:0:4294967296",
    "update extents 5:100:0 bch_extent.size=42",
    "update inodes 1:0:0 bch_inode_unpacked.bi_size+=100",
    "update a 1:2:U32_MAX k9_.a.b..c=18446744073709551615",
    "update a 1:2:3 k.f+=18446744073709551616",
    "dmp extents 5:100:0",
    "updat extents 5:100:0 k.f=1",
    "",
];

const EXTRA: [char; 16] =
    [' ', '\t', '\n', 'a', 'Z', '0', '9', '_', '.', ':', '+', '=', 'U', 'X', '-', '\u{e9}'];

fn agree(line: &str) {
    assert_eq!(parse_command(line), with_nom(line), "on {:?}", line);
}

#[test]
fn agrees_with_nom_on_sample_lines() {
    for line in LINES {
        agree(line);
    }
}

#[test]
fn agrees_with_nom_on_every_prefix() {
    for line in LINES {
        for end in 0..=line.len() {
            agree(&line[..end]);
        }
    }
}

#[test]
fn agrees_with_nom_with_a_character_put_in() {
    for line in LINES {
        for at in 0..=line.len() {
            for c in EXTRA {
                let mut changed = String::from(&line[..at]);
                changed.push(c);
                changed.push_str(&line[at..]);
                agree(&changed);
            }
        }
    }
}

#[test]
fn agrees_with_nom_with_a_character_taken_out_or_changed() {
    for line in LINES {
        for at in 0..line.len() {
            let mut shorter = String::from(&line[..at]);
            shorter.push_str(&line[at + 1..]);
            agree(&shorter);
            for c in EXTRA {
                let mut changed = String::from(&line[..at]);
                changed.push(c);
                changed.push_str(&line[at + 1..]);
                agree(&changed);
            }
        }
    }
}
