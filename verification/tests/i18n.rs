use bevy_color::ColorToPacked;
use centripetal::color::Rgba8;
use centripetal::entity::Entity;
use centripetal::i18n::{
    I18n, I18nContext, I18nEntries, I18nEntry, I18nFormatCtx, I18nNotifyError, I18nNotifyOne,
    I18nStyle, Locale,
};

use nom::branch::alt;
use nom::bytes::complete::{is_not, tag};
use nom::character::complete::{alpha1, alphanumeric1, hex_digit1, space0, u32 as nom_u32};
use nom::combinator::{cut, map_res, recognize, value, verify};
use nom::error::{ErrorKind, ParseError};
use nom::multi::{fold_many0, many0_count, separated_list0};
use nom::sequence::{delimited, pair, preceded};
use nom::{IResult, Parser};
use nom_language::error::VerboseError;

fn style(bold: bool, italic: bool, size: u32, color: Rgba8) -> I18nStyle {
    I18nStyle { bold, italic, size, color }
}

fn white() -> Rgba8 {
    Rgba8 { red: 255, green: 255, blue: 255, alpha: 255 }
}

fn default_style() -> I18nStyle {
    style(false, false, 18, white())
}

fn hex_color(s: &str) -> Rgba8 {
    let [red, green, blue, alpha] = bevy_color::Srgba::hex(s).unwrap().to_u8_array();
    Rgba8 { red, green, blue, alpha }
}

#[test]
fn parse_i18n() {
    let parsed = I18nEntry::from_str("Hello [b, i, s: 128, c: #ABCDEF]{name}[]!");
    let expected = I18nEntry::new(
        "Hello !".to_string(),
        vec![
            (6, I18nFormatCtx::Style(style(true, true, 128, hex_color("#ABCDEF")))),
            (0, I18nFormatCtx::Argument("name".to_string())),
            (0, I18nFormatCtx::Style(default_style())),
        ],
    );
    match parsed {
        Ok(entry) => assert_eq!(entry, expected),
        Err(e) => panic!("{:?}", e),
    }
}

// The grammar as a parser-combinator reference, to compare the verified parser with.

type Res<'a, T> = IResult<&'a str, T, VerboseError<&'a str>>;

#[derive(Clone, Copy)]
enum Attr {
    Bold,
    Italic,
    Size(u32),
    Color(Rgba8),
}

fn ref_plain(input: &str) -> Res<'_, &str> {
    verify(is_not("[]{}"), |s: &str| !s.is_empty()).parse(input)
}

fn ref_style_inner(input: &str) -> Res<'_, I18nStyle> {
    nom::combinator::map(
        separated_list0(
            delimited(space0, tag(","), space0),
            alt((
                value(Attr::Bold, tag("b")),
                value(Attr::Italic, tag("i")),
                nom::combinator::map(preceded(preceded(tag("s"), cut(delimited(space0, tag(":"), space0))), cut(nom_u32)), Attr::Size),
                map_res(
                    preceded(preceded(tag("c"), cut(delimited(space0, tag(":"), space0))), cut(preceded(tag("#"), hex_digit1))),
                    |s: &str| bevy_color::Srgba::hex(s).map(|c| {
                        let [red, green, blue, alpha] = c.to_u8_array();
                        Attr::Color(Rgba8 { red, green, blue, alpha })
                    }),
                ),
            )),
        ),
        |attrs| {
            let mut st = default_style();
            for a in attrs {
                match a {
                    Attr::Bold => st.bold = true,
                    Attr::Italic => st.italic = true,
                    Attr::Size(n) => st.size = n,
                    Attr::Color(c) => st.color = c,
                }
            }
            st
        },
    )
    .parse(input)
}

fn ref_style_outer(input: &str) -> Res<'_, I18nStyle> {
    delimited(tag("["), cut(ref_style_inner), cut(tag("]"))).parse(input)
}

fn ref_argument(input: &str) -> Res<'_, String> {
    nom::combinator::map(
        delimited(
            tag("{"),
            cut(recognize(pair(alt((alpha1, tag("_"))), many0_count(alt((alphanumeric1, tag("_"))))))),
            cut(tag("}")),
        ),
        String::from,
    )
    .parse(input)
}

fn ref_escaped(input: &str) -> Res<'_, char> {
    alt((
        value('[', tag("[[")),
        value('{', tag("{{")),
        value(']', preceded(tag("]"), cut(tag("]")))),
        value('}', preceded(tag("}"), cut(tag("}")))),
    ))
    .parse(input)
}

fn ref_end<T>(input: &str) -> Res<'_, T> {
    let e = VerboseError::from_error_kind(input, ErrorKind::Eof);
    if input.is_empty() {
        Err(nom::Err::Error(e))
    } else {
        Err(nom::Err::Failure(e))
    }
}

enum Piece<'a> {
    Slice(&'a str),
    Char(char),
    Segment(I18nFormatCtx),
}

fn reference(input: &str) -> Option<I18nEntry> {
    let parsed: Res<'_, (usize, String, Vec<(usize, I18nFormatCtx)>)> = cut(fold_many0(
        alt((
            nom::combinator::map(ref_escaped, Piece::Char),
            nom::combinator::map(ref_argument, |a| Piece::Segment(I18nFormatCtx::Argument(a))),
            nom::combinator::map(ref_style_outer, |s| Piece::Segment(I18nFormatCtx::Style(s))),
            nom::combinator::map(ref_plain, Piece::Slice),
            ref_end,
        )),
        || (0usize, String::new(), Vec::new()),
        |(mut len, mut format, mut contexts), piece| {
            match piece {
                Piece::Slice(s) => {
                    len += s.len();
                    format.push_str(s);
                },
                Piece::Char(c) => {
                    len += c.len_utf8();
                    format.push(c);
                },
                Piece::Segment(seg) => {
                    contexts.push((len, seg));
                    len = 0;
                },
            }
            (len, format, contexts)
        },
    ))
    .parse(input);
    match parsed {
        Ok((_, (_, format, contexts))) => Some(I18nEntry::new(format, contexts)),
        Err(_) => None,
    }
}

fn check_against_reference(s: &str) {
    let ours = I18nEntry::from_str(s).ok();
    let theirs = reference(s);
    assert_eq!(ours, theirs, "input {:?}", s);
}

#[test]
fn parse_agrees_with_reference_on_short_strings() {
    let alphabet = ['a', 'b', 'i', 's', 'c', ' ', '[', ']', '{', '}', ',', ':', '#', '1', 'F', '_', 'é'];
    let mut strings = vec![String::new()];
    for _ in 0..4 {
        let mut next = Vec::new();
        for s in &strings {
            for &c in &alphabet {
                let mut t = s.clone();
                t.push(c);
                next.push(t);
            }
        }
        for s in &next {
            check_against_reference(s);
        }
        strings = next;
    }
}

#[test]
fn parse_agrees_with_reference_on_examples() {
    let examples = [
        "",
        "plain",
        "[[escaped]] {{braces}}",
        "[b]bold[i]italic[]plain",
        "[s: 24, c: #FF0000]big red",
        "[s:24,c:#F00]short",
        "[c: #ABCD]alpha",
        "[c: #ABCDEF12]long alpha",
        "[c: #ABCDE]five digits",
        "[s: 4294967295]max",
        "[s: 4294967296]overflow",
        "{name} and {other_1}",
        "{_x}",
        "{1x}",
        "{}",
        "]",
        "}",
        "[b, ]",
        "[ b]",
        "[b ,i]",
        "[b\t,\ti]tabs",
        "[x]",
        "[s 12]",
        "[c: ABC]",
        "héllo [b]wörld{name}!",
        "[b][i][]",
        "text [",
        "text {",
        "text {name",
    ];
    for s in examples {
        check_against_reference(s);
    }
}

#[test]
fn plain_text_reads_as_itself() {
    let e = I18nEntry::from_str("Just words, no markup.").unwrap();
    assert_eq!(e, I18nEntry::new("Just words, no markup.".to_string(), vec![]));
}

#[test]
fn doubled_brackets_stand_for_themselves() {
    let e = I18nEntry::from_str("a [[b]] {{c}}").unwrap();
    assert_eq!(e, I18nEntry::new("a [b] {c}".to_string(), vec![]));
}

#[test]
fn lone_closing_brackets_are_refused() {
    assert!(I18nEntry::from_str("a ] b").is_err());
    assert!(I18nEntry::from_str("a } b").is_err());
    assert!(I18nEntry::from_str("[b").is_err());
    assert!(I18nEntry::from_str("{name").is_err());
    assert!(I18nEntry::from_str("[q]").is_err());
}

#[test]
fn offsets_count_bytes() {
    let e = I18nEntry::from_str("é[b]x").unwrap();
    assert_eq!(
        e,
        I18nEntry::new("éx".to_string(), vec![(2, I18nFormatCtx::Style(style(true, false, 18, white())))])
    );
}

#[test]
fn format_splits_styled_pieces_and_fills_arguments() {
    let e = I18nEntry::from_str("Hi [b]{who}[]!").unwrap();
    let args = vec![("who".to_string(), "Selene".to_string())];
    let pieces = e.format(&args);
    assert_eq!(
        pieces,
        vec![
            ("Hi ".to_string(), default_style()),
            ("Selene".to_string(), style(true, false, 18, white())),
            ("!".to_string(), default_style()),
        ]
    );
}

#[test]
fn format_skips_missing_arguments() {
    let e = I18nEntry::from_str("a{x}b").unwrap();
    let pieces = e.format(&vec![]);
    assert_eq!(pieces, vec![("a".to_string(), default_style()), ("b".to_string(), default_style())]);
}

#[test]
fn format_without_arguments_gives_back_the_text() {
    let e = I18nEntry::from_str("One [b]two {three} [i]four[]").unwrap();
    let pieces = e.format(&vec![]);
    let text: String = pieces.iter().map(|(s, _)| s.as_str()).collect();
    assert_eq!(text, "One two  four");
}

#[test]
fn format_takes_the_first_argument_of_a_name() {
    let e = I18nEntry::from_str("{x}").unwrap();
    let args = vec![("x".to_string(), "1".to_string()), ("x".to_string(), "2".to_string())];
    assert_eq!(e.format(&args), vec![("1".to_string(), default_style())]);
}

#[test]
fn locale_from_language_tags() {
    assert_eq!(Locale::from_bcp47("en-US"), Some(Locale::EnUS));
    assert_eq!(Locale::from_bcp47("EN-us"), Some(Locale::EnUS));
    assert_eq!(Locale::from_bcp47("fr-FR"), None);
    assert_eq!(Locale::bcp47_to_ident("en-US"), "EnUS");
    assert_eq!(Locale::bcp47_to_ident("zh-CN"), "ZhCN");
    assert_eq!(Locale::bcp47_to_ident("ÉN-us"), "ÉNus");
    assert_eq!(Locale::from_system(Some("de-DE")), Locale::EnUS);
    assert_eq!(Locale::from_system(None), Locale::EnUS);
}

#[test]
fn locale_names_ignore_case() {
    assert_eq!("EnUS".parse::<Locale>(), Ok(Locale::EnUS));
    assert_eq!("enus".parse::<Locale>(), Ok(Locale::EnUS));
    assert_eq!("ENUS".parse::<Locale>(), Ok(Locale::EnUS));
    assert!("en-US".parse::<Locale>().is_err());
}

#[test]
fn i18n_arguments_keep_the_last_value_of_a_name() {
    let t = I18n::new(
        "key".to_string(),
        vec![("a".to_string(), "1".to_string()), ("b".to_string(), "2".to_string()), ("a".to_string(), "3".to_string())],
    );
    assert_eq!(t.key, "key");
    let mut args = t.arguments.clone();
    args.sort();
    assert_eq!(args, vec![("a".to_string(), "3".to_string()), ("b".to_string(), "2".to_string())]);
}

#[test]
fn notify_reports_missing_entries_and_keys() {
    let entries = I18nEntries(vec![("greet".to_string(), I18nEntry::from_str("Hello {who}").unwrap())]);
    let t = I18n::new("greet".to_string(), vec![("who".to_string(), "you".to_string())]);
    let n = I18nNotifyOne.notify(Some(&t), Locale::EnUS, Some(&entries)).unwrap().unwrap();
    assert_eq!(n.locale, Locale::EnUS);
    assert_eq!(n.fmt, I18nEntry::from_str("Hello {who}").unwrap());
    assert_eq!(n.arguments, vec![("who".to_string(), "you".to_string())]);

    assert!(matches!(I18nNotifyOne.notify(None, Locale::EnUS, Some(&entries)), Ok(None)));
    assert_eq!(
        I18nNotifyOne.notify(Some(&t), Locale::EnUS, None).err(),
        Some(I18nNotifyError::EntriesUnloaded)
    );
    let missing = I18n::new("nope".to_string(), vec![]);
    assert_eq!(
        I18nNotifyOne.notify(Some(&missing), Locale::EnUS, Some(&entries)).err(),
        Some(I18nNotifyError::MissingKey("nope".to_string()))
    );
}

#[test]
fn later_entries_replace_earlier_ones() {
    let entries = I18nEntries(vec![
        ("k".to_string(), I18nEntry::from_str("first").unwrap()),
        ("k".to_string(), I18nEntry::from_str("second").unwrap()),
    ]);
    assert_eq!(entries.get("k"), Some(&I18nEntry::from_str("second").unwrap()));
    assert_eq!(entries.get("x"), None);
}

#[test]
fn context_listeners_are_a_set() {
    let mut c = I18nContext::new(Some("en-US"));
    assert_eq!(c.current_locale(), Locale::EnUS);
    c.listen(Entity(3));
    c.listen(Entity(5));
    c.listen(Entity(3));
    let mut l = c.listeners();
    l.sort_by_key(|e| e.0);
    assert_eq!(l, vec![Entity(3), Entity(5)]);
}
