use vstd::prelude::*;
use vstd::string::*;
use vstd::utf8::*;

use crate::color::{spec_srgba_hex, srgba_hex, Rgba8};
use crate::text::{
    byte_len, lemma_ascii_char_byte_len, lemma_byte_len_prefix, lemma_char_boundary_concat,
    lemma_encode_concat, str_chars,
};

verus! {

broadcast use vstd::string::group_string_axioms;

// ---------------------------------------------------------------------------------------------
// Styles and format contexts
// ---------------------------------------------------------------------------------------------

/// The text style that a run of localized text is drawn with.
#[derive(Debug, Clone, Copy, PartialEq, Eq, Structural)]
pub struct I18nStyle {
    pub bold: bool,
    pub italic: bool,
    pub size: u32,
    pub color: Rgba8,
}

impl I18nStyle {
    pub open spec fn spec_default() -> I18nStyle {
        I18nStyle { bold: false, italic: false, size: 18, color: Rgba8::spec_white() }
    }
}

impl Default for I18nStyle {
    /// Regular (neither bold nor italic) white text of size 18.
    fn default() -> (s: Self)
        ensures
            s == I18nStyle::spec_default(),
    {
        I18nStyle { bold: false, italic: false, size: 18, color: Rgba8::white() }
    }
}

/// What comes after a run of plain text in a localized format: a new style, or an argument.
#[derive(Debug, Clone, PartialEq)]
pub enum I18nFormatCtx {
    Style(I18nStyle),
    Argument(String),
}

/// The mathematical view of an [`I18nFormatCtx`].
pub enum I18nFormatCtxView {
    Style(I18nStyle),
    Argument(Seq<char>),
}

impl View for I18nFormatCtx {
    type V = I18nFormatCtxView;

    open spec fn view(&self) -> I18nFormatCtxView {
        match self {
            I18nFormatCtx::Style(s) => I18nFormatCtxView::Style(*s),
            I18nFormatCtx::Argument(a) => I18nFormatCtxView::Argument(a@),
        }
    }
}

/// A parsed localization entry: the plain text, and the contexts that interrupt it.
///
/// Each context is preceded by the number of bytes of plain text since the previous context
/// (or since the start).
#[derive(Debug, Clone, PartialEq)]
pub struct I18nEntry {
    format: String,
    contexts: Vec<(usize, I18nFormatCtx)>,
}

/// The mathematical view of an [`I18nEntry`].
pub struct I18nEntryView {
    pub format: Seq<char>,
    pub contexts: Seq<(nat, I18nFormatCtxView)>,
}

pub open spec fn contexts_view(c: Seq<(usize, I18nFormatCtx)>) -> Seq<(nat, I18nFormatCtxView)> {
    c.map_values(|p: (usize, I18nFormatCtx)| (p.0 as nat, p.1@))
}

impl View for I18nEntry {
    type V = I18nEntryView;

    closed spec fn view(&self) -> I18nEntryView {
        I18nEntryView { format: self.format@, contexts: contexts_view(self.contexts@) }
    }
}

/// Why a localization format string was refused.
#[derive(Debug, Clone, Copy, PartialEq, Eq, Structural)]
pub struct I18nParseError;

// ---------------------------------------------------------------------------------------------
// The grammar of localization format strings
// ---------------------------------------------------------------------------------------------
pub open spec fn is_blank(c: char) -> bool {
    c == ' ' || c == '\t'
}

pub open spec fn is_decimal(c: char) -> bool {
    '0' <= c && c <= '9'
}

pub open spec fn is_ident_start(c: char) -> bool {
    ('a' <= c && c <= 'z') || ('A' <= c && c <= 'Z') || c == '_'
}

pub open spec fn is_ident_char(c: char) -> bool {
    is_ident_start(c) || is_decimal(c)
}

pub open spec fn is_special(c: char) -> bool {
    c == '[' || c == ']' || c == '{' || c == '}'
}

/// End of the run of blanks (spaces and tabs) that starts at `p`.
pub open spec fn blank_end(s: Seq<char>, p: int) -> int
    decreases s.len() - p,
{
    if 0 <= p < s.len() && is_blank(s[p]) {
        blank_end(s, p + 1)
    } else {
        p
    }
}

/// End of the run of decimal digits that starts at `p`.
pub open spec fn decimal_end(s: Seq<char>, p: int) -> int
    decreases s.len() - p,
{
    if 0 <= p < s.len() && is_decimal(s[p]) {
        decimal_end(s, p + 1)
    } else {
        p
    }
}

/// End of the run of hexadecimal digits that starts at `p`.
pub open spec fn hex_end(s: Seq<char>, p: int) -> int
    decreases s.len() - p,
{
    if 0 <= p < s.len() && crate::color::is_hex_char(s[p]) {
        hex_end(s, p + 1)
    } else {
        p
    }
}

/// End of the run of identifier characters (ASCII letters, digits, `_`) that starts at `p`.
pub open spec fn ident_end(s: Seq<char>, p: int) -> int
    decreases s.len() - p,
{
    if 0 <= p < s.len() && is_ident_char(s[p]) {
        ident_end(s, p + 1)
    } else {
        p
    }
}

/// End of the run of plain characters (anything but `[`, `]`, `{`, `}`) that starts at `p`.
pub open spec fn plain_end(s: Seq<char>, p: int) -> int
    decreases s.len() - p,
{
    if 0 <= p < s.len() && !is_special(s[p]) {
        plain_end(s, p + 1)
    } else {
        p
    }
}

/// The number that a sequence of decimal digits denotes.
pub open spec fn dec_value(d: Seq<char>) -> nat
    decreases d.len(),
{
    if d.len() == 0 {
        0
    } else {
        dec_value(d.drop_last()) * 10 + (d.last() as nat - '0' as nat) as nat
    }
}

/// One attribute inside a style bracket.
#[derive(Debug, Clone, Copy, PartialEq, Eq, Structural)]
pub enum StyleAttr {
    Bold,
    Italic,
    Size(u32),
    Color(Rgba8),
}

pub open spec fn apply_attr(st: I18nStyle, a: StyleAttr) -> I18nStyle {
    match a {
        StyleAttr::Bold => I18nStyle { bold: true, italic: st.italic, size: st.size, color: st.color },
        StyleAttr::Italic => I18nStyle { bold: st.bold, italic: true, size: st.size, color: st.color },
        StyleAttr::Size(n) => I18nStyle { bold: st.bold, italic: st.italic, size: n, color: st.color },
        StyleAttr::Color(c) => I18nStyle { bold: st.bold, italic: st.italic, size: st.size, color: c },
    }
}

/// The style attribute that starts at `p`, and where it ends: `b`, `i`,
/// `s: <decimal u32>` or `c: #<hexadecimal color>` (blanks allowed around the `:`).
pub open spec fn spec_style_attr(s: Seq<char>, p: int) -> Option<(StyleAttr, int)> {
    if 0 <= p < s.len() {
        if s[p] == 'b' {
            Some((StyleAttr::Bold, p + 1))
        } else if s[p] == 'i' {
            Some((StyleAttr::Italic, p + 1))
        } else if s[p] == 's' || s[p] == 'c' {
            let r = blank_end(s, p + 1);
            if r < s.len() && s[r] == ':' {
                let t = blank_end(s, r + 1);
                if s[p] == 's' {
                    let e = decimal_end(s, t);
                    if t < e && dec_value(s.subrange(t, e)) <= u32::MAX {
                        Some((StyleAttr::Size(dec_value(s.subrange(t, e)) as u32), e))
                    } else {
                        None
                    }
                } else if t < s.len() && s[t] == '#' {
                    let e = hex_end(s, t + 1);
                    if t + 1 < e {
                        match spec_srgba_hex(s.subrange(t + 1, e)) {
                            Ok(c) => Some((StyleAttr::Color(c), e)),
                            Err(_) => None,
                        }
                    } else {
                        None
                    }
                } else {
                    None
                }
            } else {
                None
            }
        } else {
            None
        }
    } else {
        None
    }
}

/// The rest of a style bracket after an attribute that ended at `q`: more attributes, each
/// after a `,` (blanks allowed around it), then the closing `]`.
pub open spec fn spec_style_rest(s: Seq<char>, q: int, st: I18nStyle) -> Option<(I18nStyle, int)>
    decreases s.len() - q,
{
    if 0 <= q <= s.len() {
        let r = blank_end(s, q);
        if r < s.len() && s[r] == ',' {
            let t = blank_end(s, r + 1);
            match spec_style_attr(s, t) {
                Some((a, u)) => if q < u <= s.len() {
                    spec_style_rest(s, u, apply_attr(st, a))
                } else {
                    None
                },
                None => None,
            }
        } else if q < s.len() && s[q] == ']' {
            Some((st, q + 1))
        } else {
            None
        }
    } else {
        None
    }
}

/// The style bracket whose body starts at `p` (just after the `[`), and where it ends (just
/// after the `]`). An empty bracket `[]` stands for the default style.
pub open spec fn spec_style(s: Seq<char>, p: int) -> Option<(I18nStyle, int)> {
    match spec_style_attr(s, p) {
        Some((a, u)) => if p < u <= s.len() {
            spec_style_rest(s, u, apply_attr(I18nStyle::spec_default(), a))
        } else {
            None
        },
        None => if 0 <= p < s.len() && s[p] == ']' {
            Some((I18nStyle::spec_default(), p + 1))
        } else {
            None
        },
    }
}

/// The argument name that starts at `p` (just after the `{`): an identifier followed by `}`.
/// Gives the end of the name.
pub open spec fn spec_argument(s: Seq<char>, p: int) -> Option<int> {
    if 0 <= p < s.len() && is_ident_start(s[p]) {
        let e = ident_end(s, p);
        if e < s.len() && s[e] == '}' {
            Some(e)
        } else {
            None
        }
    } else {
        None
    }
}

/// A unit of a localization format string.
pub enum I18nToken {
    Text(Seq<char>),
    Context(I18nFormatCtxView),
}

/// The unit that starts at `i`, and where it ends. Doubled brackets and braces stand for
/// themselves; a single `[` opens a style, a single `{` an argument; a single `]` or `}` is
/// refused.
pub open spec fn spec_next_token(s: Seq<char>, i: int) -> Option<(I18nToken, int)> {
    let c = s[i];
    if c == '[' {
        if i + 1 < s.len() && s[i + 1] == '[' {
            Some((I18nToken::Text(seq!['[']), i + 2))
        } else {
            match spec_style(s, i + 1) {
                Some((st, n)) => Some((I18nToken::Context(I18nFormatCtxView::Style(st)), n)),
                None => None,
            }
        }
    } else if c == '{' {
        if i + 1 < s.len() && s[i + 1] == '{' {
            Some((I18nToken::Text(seq!['{']), i + 2))
        } else {
            match spec_argument(s, i + 1) {
                Some(e) => Some(
                    (I18nToken::Context(I18nFormatCtxView::Argument(s.subrange(i + 1, e))), e + 1),
                ),
                None => None,
            }
        }
    } else if c == ']' || c == '}' {
        if i + 1 < s.len() && s[i + 1] == c {
            Some((I18nToken::Text(seq![c]), i + 2))
        } else {
            None
        }
    } else {
        let e = plain_end(s, i);
        Some((I18nToken::Text(s.subrange(i, e)), e))
    }
}

/// Parses the units from `i` on. `format` is the plain text so far, `seg` the plain text since
/// the last context, `contexts` the contexts so far, each with the byte length of the text
/// before it.
pub open spec fn spec_parse_from(
    s: Seq<char>,
    i: int,
    format: Seq<char>,
    seg: Seq<char>,
    contexts: Seq<(nat, I18nFormatCtxView)>,
) -> Option<I18nEntryView>
    decreases s.len() - i,
{
    if i < 0 || i >= s.len() {
        Some(I18nEntryView { format, contexts })
    } else {
        match spec_next_token(s, i) {
            Some((tok, n)) => if i < n <= s.len() {
                match tok {
                    I18nToken::Text(t) => spec_parse_from(s, n, format + t, seg + t, contexts),
                    I18nToken::Context(c) => spec_parse_from(
                        s,
                        n,
                        format,
                        seq![],
                        contexts.push((byte_len(seg), c)),
                    ),
                }
            } else {
                None
            },
            None => None,
        }
    }
}

/// The entry that a localization format string denotes, if it is well formed.
pub open spec fn spec_parse_i18n(s: Seq<char>) -> Option<I18nEntryView> {
    spec_parse_from(s, 0, seq![], seq![], seq![])
}

/// The byte offsets of the contexts fall on character boundaries of the text that remains.
pub open spec fn offsets_ok(bytes: Seq<u8>, contexts: Seq<(nat, I18nFormatCtxView)>) -> bool
    decreases contexts.len(),
{
    if contexts.len() == 0 {
        true
    } else {
        let off = contexts[0].0 as int;
        &&& off <= bytes.len()
        &&& valid_utf8(bytes)
        &&& is_char_boundary(bytes, off)
        &&& offsets_ok(bytes.subrange(off, bytes.len() as int), contexts.drop_first())
    }
}

impl I18nEntry {
    /// The entry's contexts split its text at character boundaries: each offset, counted from
    /// the previous one, stays within the text and falls on a character boundary (so splitting
    /// the text there while formatting cannot fail).
    pub open spec fn wf(&self) -> bool {
        offsets_ok(encode_utf8(self@.format), self@.contexts)
    }
}

// ---------------------------------------------------------------------------------------------
// The parser
// ---------------------------------------------------------------------------------------------
fn scan_blanks(chars: &Vec<char>, p: usize) -> (e: usize)
    requires
        p <= chars.len(),
    ensures
        e as int == blank_end(chars@, p as int),
        p <= e <= chars.len(),
{
    let mut e = p;
    while e < chars.len() && (chars[e] == ' ' || chars[e] == '\t')
        invariant
            p <= e <= chars.len(),
            blank_end(chars@, e as int) == blank_end(chars@, p as int),
        decreases chars.len() - e,
    {
        e = e + 1;
    }
    e
}

fn scan_hex(chars: &Vec<char>, p: usize) -> (e: usize)
    requires
        p <= chars.len(),
    ensures
        e as int == hex_end(chars@, p as int),
        p <= e <= chars.len(),
{
    let mut e = p;
    while e < chars.len() && (('0' <= chars[e] && chars[e] <= '9') || ('a' <= chars[e] && chars[e]
        <= 'f') || ('A' <= chars[e] && chars[e] <= 'F'))
        invariant
            p <= e <= chars.len(),
            hex_end(chars@, e as int) == hex_end(chars@, p as int),
        decreases chars.len() - e,
    {
        e = e + 1;
    }
    e
}

fn scan_ident(chars: &Vec<char>, p: usize) -> (e: usize)
    requires
        p <= chars.len(),
    ensures
        e as int == ident_end(chars@, p as int),
        p <= e <= chars.len(),
{
    let mut e = p;
    while e < chars.len() && (('a' <= chars[e] && chars[e] <= 'z') || ('A' <= chars[e] && chars[e]
        <= 'Z') || chars[e] == '_' || ('0' <= chars[e] && chars[e] <= '9'))
        invariant
            p <= e <= chars.len(),
            ident_end(chars@, e as int) == ident_end(chars@, p as int),
        decreases chars.len() - e,
    {
        e = e + 1;
    }
    e
}

/// End of the plain text that starts at `p`.
fn parse_i18n_plain(chars: &Vec<char>, p: usize) -> (e: usize)
    requires
        p <= chars.len(),
    ensures
        e as int == plain_end(chars@, p as int),
        p <= e <= chars.len(),
        p < chars.len() && !is_special(chars@[p as int]) ==> p < e,
{
    let mut e = p;
    while e < chars.len() && !(chars[e] == '[' || chars[e] == ']' || chars[e] == '{' || chars[e]
        == '}')
        invariant
            p <= e <= chars.len(),
            plain_end(chars@, e as int) == plain_end(chars@, p as int),
        decreases chars.len() - e,
    {
        e = e + 1;
    }
    e
}

/// The decimal `u32` that starts at `p`, and where it ends; `None` without a digit or when the
/// number does not fit.
pub(crate) fn parse_u32(chars: &Vec<char>, p: usize) -> (r: Option<(u32, usize)>)
    requires
        p <= chars.len(),
    ensures
        ({
            let e = decimal_end(chars@, p as int);
            match r {
                Some((v, q)) => q as int == e && p < q <= chars.len() && v as nat == dec_value(
                    chars@.subrange(p as int, e),
                ),
                None => !(p < e && dec_value(chars@.subrange(p as int, e)) <= u32::MAX),
            }
        }),
{
    let mut e = p;
    let mut v: u32 = 0;
    while e < chars.len() && '0' <= chars[e] && chars[e] <= '9'
        invariant
            p <= e <= chars.len(),
            decimal_end(chars@, e as int) == decimal_end(chars@, p as int),
            v as nat == dec_value(chars@.subrange(p as int, e as int)),
        decreases chars.len() - e,
    {
        let d = (chars[e] as u32) - ('0' as u32);
        proof {
            let next = chars@.subrange(p as int, e + 1);
            assert(next.drop_last() =~= chars@.subrange(p as int, e as int));
            assert(next.last() == chars@[e as int]);
        }
        if v > 429496729 || (v == 429496729 && d > 5) {
            proof {
                lemma_decimal_end_ge(chars@, e + 1);
                assert(decimal_end(chars@, e as int) == decimal_end(chars@, e + 1));
                lemma_dec_value_grows(chars@, p as int, e + 1, decimal_end(chars@, p as int));
            }
            return None;
        }
        v = v * 10 + d;
        e = e + 1;
    }
    if e == p {
        return None;
    }
    Some((v, e))
}

proof fn lemma_decimal_end_ge(s: Seq<char>, p: int)
    ensures
        decimal_end(s, p) >= p,
    decreases s.len() - p,
{
    if 0 <= p < s.len() && is_decimal(s[p]) {
        lemma_decimal_end_ge(s, p + 1);
    }
}

proof fn lemma_decimal_run(s: Seq<char>, p: int, q: int)
    requires
        0 <= p <= q <= decimal_end(s, p),
    ensures
        decimal_end(s, q) == decimal_end(s, p),
        q < decimal_end(s, p) ==> 0 <= q < s.len() && is_decimal(s[q]),
    decreases q - p,
{
    if p < q {
        assert(0 <= p < s.len() && is_decimal(s[p]));
        lemma_decimal_run(s, p + 1, q);
    } else {
        if q < decimal_end(s, p) {
            assert(0 <= q < s.len() && is_decimal(s[q]));
        }
    }
}

proof fn lemma_dec_value_grows(s: Seq<char>, p: int, q: int, e: int)
    requires
        0 <= p < q <= e,
        e == decimal_end(s, p),
    ensures
        dec_value(s.subrange(p, q)) <= dec_value(s.subrange(p, e)),
    decreases e - q,
{
    if q < e {
        lemma_decimal_run(s, p, q);
        lemma_dec_value_grows(s, p, q + 1, e);
        let next = s.subrange(p, q + 1);
        assert(next.drop_last() =~= s.subrange(p, q));
    }
}

fn apply_style_attr(st: I18nStyle, a: StyleAttr) -> (r: I18nStyle)
    ensures
        r == apply_attr(st, a),
{
    match a {
        StyleAttr::Bold => I18nStyle { bold: true, ..st },
        StyleAttr::Italic => I18nStyle { italic: true, ..st },
        StyleAttr::Size(n) => I18nStyle { size: n, ..st },
        StyleAttr::Color(c) => I18nStyle { color: c, ..st },
    }
}

/// The style attribute that starts at `p`.
fn parse_i18n_style_attr(s: &str, chars: &Vec<char>, p: usize) -> (r: Option<(StyleAttr, usize)>)
    requires
        chars@ == s@,
        p <= chars.len(),
    ensures
        match r {
            Some((a, u)) => spec_style_attr(chars@, p as int) == Some((a, u as int)) && p < u
                <= chars.len(),
            None => spec_style_attr(chars@, p as int) is None,
        },
{
    if p >= chars.len() {
        return None;
    }
    let c = chars[p];
    if c == 'b' {
        return Some((StyleAttr::Bold, p + 1));
    }
    if c == 'i' {
        return Some((StyleAttr::Italic, p + 1));
    }
    if c != 's' && c != 'c' {
        return None;
    }
    let r = scan_blanks(chars, p + 1);
    if !(r < chars.len() && chars[r] == ':') {
        return None;
    }
    let t = scan_blanks(chars, r + 1);
    if c == 's' {
        match parse_u32(chars, t) {
            Some((v, e)) => Some((StyleAttr::Size(v), e)),
            None => None,
        }
    } else {
        if !(t < chars.len() && chars[t] == '#') {
            return None;
        }
        let e = scan_hex(chars, t + 1);
        if e <= t + 1 {
            return None;
        }
        let digits = s.substring_char(t + 1, e);
        match srgba_hex(digits) {
            Ok(color) => Some((StyleAttr::Color(color), e)),
            Err(_) => None,
        }
    }
}

/// The body of a style bracket that starts at `p` (just after the `[`): attributes separated
/// by commas, then `]`.
fn parse_i18n_style_inner(s: &str, chars: &Vec<char>, p: usize) -> (r: Option<(I18nStyle, usize)>)
    requires
        chars@ == s@,
        p <= chars.len(),
    ensures
        match r {
            Some((st, n)) => spec_style(chars@, p as int) == Some((st, n as int)) && p < n
                <= chars.len(),
            None => spec_style(chars@, p as int) is None,
        },
{
    let first = parse_i18n_style_attr(s, chars, p);
    let (a, u) = match first {
        Some(x) => x,
        None => {
            if p < chars.len() && chars[p] == ']' {
                return Some((I18nStyle::default(), p + 1));
            } else {
                return None;
            }
        },
    };
    let mut st = apply_style_attr(I18nStyle::default(), a);
    let mut q = u;
    loop
        invariant
            chars@ == s@,
            p < q <= chars.len(),
            spec_style(chars@, p as int) == spec_style_rest(chars@, q as int, st),
        decreases chars.len() - q,
    {
        let r = scan_blanks(chars, q);
        if r < chars.len() && chars[r] == ',' {
            let t = scan_blanks(chars, r + 1);
            match parse_i18n_style_attr(s, chars, t) {
                Some((a, u)) => {
                    st = apply_style_attr(st, a);
                    q = u;
                },
                None => {
                    return None;
                },
            }
        } else if q < chars.len() && chars[q] == ']' {
            return Some((st, q + 1));
        } else {
            return None;
        }
    }
}

/// A style bracket that starts at `p` (at the `[`).
fn parse_i18n_style_outer(s: &str, chars: &Vec<char>, p: usize) -> (r: Option<(I18nStyle, usize)>)
    requires
        chars@ == s@,
        p < chars.len(),
        chars@[p as int] == '[',
    ensures
        match r {
            Some((st, n)) => spec_style(chars@, p + 1) == Some((st, n as int)) && p + 1 < n
                <= chars.len(),
            None => spec_style(chars@, p + 1) is None,
        },
{
    parse_i18n_style_inner(s, chars, p + 1)
}

/// An argument that starts at `p` (at the `{`): the end of its name.
fn parse_i18n_argument(chars: &Vec<char>, p: usize) -> (r: Option<usize>)
    requires
        p < chars.len(),
    ensures
        match r {
            Some(e) => spec_argument(chars@, p + 1) == Some(e as int) && p + 1 < e < chars.len(),
            None => spec_argument(chars@, p + 1) is None,
        },
{
    let q = p + 1;
    if q >= chars.len() {
        return None;
    }
    let c = chars[q];
    if !(('a' <= c && c <= 'z') || ('A' <= c && c <= 'Z') || c == '_') {
        return None;
    }
    let e = scan_ident(chars, q);
    if e < chars.len() && chars[e] == '}' {
        Some(e)
    } else {
        None
    }
}

/// A doubled bracket or brace that starts at `p`, standing for one such character.
fn parse_i18n_escaped(chars: &Vec<char>, p: usize) -> (r: bool)
    requires
        p < chars.len(),
    ensures
        r == (p + 1 < chars.len() && chars@[p + 1] == chars@[p as int] && is_special(
            chars@[p as int],
        )),
{
    let c = chars[p];
    (c == '[' || c == ']' || c == '{' || c == '}') && p + 1 < chars.len() && chars[p + 1] == c
}

/// A unit of the format string, by positions into it.
enum Tok {
    Text(usize, usize),
    Style(I18nStyle),
    Argument(usize, usize),
}

spec fn tok_view(t: Tok, s: Seq<char>) -> I18nToken {
    match t {
        Tok::Text(a, b) => I18nToken::Text(s.subrange(a as int, b as int)),
        Tok::Style(st) => I18nToken::Context(I18nFormatCtxView::Style(st)),
        Tok::Argument(a, b) => I18nToken::Context(
            I18nFormatCtxView::Argument(s.subrange(a as int, b as int)),
        ),
    }
}

spec fn tok_in_bounds(t: Tok, len: int) -> bool {
    match t {
        Tok::Text(a, b) => a <= b <= len,
        Tok::Style(_) => true,
        Tok::Argument(a, b) => a <= b <= len,
    }
}

/// The unit that starts at `i`.
fn parse_i18n_token(s: &str, chars: &Vec<char>, i: usize) -> (r: Option<(Tok, usize)>)
    requires
        chars@ == s@,
        i < chars.len(),
    ensures
        match r {
            Some((t, n)) => spec_next_token(chars@, i as int) == Some(
                (tok_view(t, chars@), n as int),
            ) && tok_in_bounds(t, chars.len() as int) && i < n <= chars.len() && match t {
                Tok::Text(a, b) => a == i && (b == n || (b == i + 1 && n == i + 2 && (
                chars@[i as int] as u32) < 0x80)),
                _ => true,
            },
            None => spec_next_token(chars@, i as int) is None,
        },
{
    let c = chars[i];
    if parse_i18n_escaped(chars, i) {
        proof {
            assert(chars@.subrange(i as int, i + 1) =~= seq![c]);
        }
        return Some((Tok::Text(i, i + 1), i + 2));
    }
    if c == '[' {
        match parse_i18n_style_outer(s, chars, i) {
            Some((st, n)) => Some((Tok::Style(st), n)),
            None => None,
        }
    } else if c == '{' {
        match parse_i18n_argument(chars, i) {
            Some(e) => Some((Tok::Argument(i + 1, e), e + 1)),
            None => None,
        }
    } else if c == ']' || c == '}' {
        None
    } else {
        let e = parse_i18n_plain(chars, i);
        Some((Tok::Text(i, e), e))
    }
}

/// The offsets of `segs`, paired with contexts, fall on character boundaries of the text
/// made of `segs` and `tail`.
proof fn lemma_offsets_ok(
    segs: Seq<Seq<char>>,
    tail: Seq<char>,
    contexts: Seq<(nat, I18nFormatCtxView)>,
)
    requires
        segs.len() == contexts.len(),
        forall|j: int| 0 <= j < segs.len() ==> #[trigger] contexts[j].0 == byte_len(segs[j]),
    ensures
        offsets_ok(encode_utf8(segs.flatten() + tail), contexts),
    decreases segs.len(),
{
    if segs.len() > 0 {
        let rest = segs.drop_first();
        let rest_ctx = contexts.drop_first();
        assert forall|j: int| 0 <= j < rest.len() implies #[trigger] rest_ctx[j].0 == byte_len(
            rest[j],
        ) by {
            assert(rest_ctx[j] == contexts[j + 1]);
            assert(rest[j] == segs[j + 1]);
        }
        lemma_offsets_ok(rest, tail, rest_ctx);
        assert(segs.flatten() =~= segs[0] + rest.flatten());
        let whole = segs.flatten() + tail;
        let after = rest.flatten() + tail;
        assert(whole =~= segs[0] + after);
        lemma_char_boundary_concat(segs[0], after);
        lemma_encode_concat(segs[0], after);
        let bytes = encode_utf8(whole);
        let off = contexts[0].0 as int;
        assert(off == byte_len(segs[0]));
        assert(bytes.subrange(off, bytes.len() as int) =~= encode_utf8(after));
    } else {
        assert(contexts.len() == 0);
    }
}

proof fn lemma_flatten_push(segs: Seq<Seq<char>>, x: Seq<char>)
    ensures
        segs.push(x).flatten() == segs.flatten() + x,
{
    segs.push(x).lemma_flatten_and_flatten_alt_are_equivalent();
    segs.lemma_flatten_and_flatten_alt_are_equivalent();
    assert(segs.push(x).drop_last() =~= segs);
}

impl I18nEntry {
    /// An entry made of a text and its contexts (each with the number of bytes of text since
    /// the previous context).
    pub fn new(format: String, contexts: Vec<(usize, I18nFormatCtx)>) -> (e: I18nEntry)
        ensures
            e@ == (I18nEntryView { format: format@, contexts: contexts_view(contexts@) }),
    {
        I18nEntry { format, contexts }
    }

    /// Parses a localization format string: plain text, with `[...]` styles (`b`, `i`,
    /// `s: <size>`, `c: #<color>`, comma-separated), `{name}` arguments, and `[[`, `]]`,
    /// `{{`, `}}` standing for a single bracket or brace.
    pub fn from_str(s: &str) -> (r: Result<I18nEntry, I18nParseError>)
        ensures
            match r {
                Ok(e) => spec_parse_i18n(s@) == Some(e@) && e.wf(),
                Err(_) => spec_parse_i18n(s@) is None,
            },
    {
        parse_i18n_fmt(s)
    }
}

/// Parses a whole localization format string.
fn parse_i18n_fmt(s: &str) -> (r: Result<I18nEntry, I18nParseError>)
    ensures
        match r {
            Ok(e) => spec_parse_i18n(s@) == Some(e@) && e.wf(),
            Err(_) => spec_parse_i18n(s@) is None,
        },
{
    let chars = str_chars(s);
    let ghost sv = s@;
    let total = s.as_bytes().len();
    proof {
        assert(s.spec_bytes() == encode_utf8(sv));
    }
    let mut format = String::new();
    let mut contexts: Vec<(usize, I18nFormatCtx)> = Vec::new();
    let mut fmt_len: usize = 0;
    let ghost mut seg: Seq<char> = seq![];
    let ghost mut segs: Seq<Seq<char>> = seq![];
    let mut i: usize = 0;
    proof {
        assert(sv.take(0) =~= Seq::<char>::empty());
        assert(contexts_view(contexts@) =~= Seq::<(nat, I18nFormatCtxView)>::empty());
        assert(format@ =~= segs.flatten() + seg);
    }
    while i < chars.len()
        invariant
            sv == s@,
            chars@ == sv,
            total == byte_len(sv),
            i <= chars.len(),
            spec_parse_from(sv, i as int, format@, seg, contexts_view(contexts@))
                == spec_parse_i18n(sv),
            fmt_len == byte_len(seg),
            byte_len(seg) <= byte_len(sv.take(i as int)),
            format@ == segs.flatten() + seg,
            segs.len() == contexts@.len(),
            forall|j: int|
                0 <= j < segs.len() ==> #[trigger] contexts@[j].0 as nat == byte_len(segs[j]),
        decreases chars.len() - i,
    {
        let tok = parse_i18n_token(s, &chars, i);
        let (t, n) = match tok {
            Some(x) => x,
            None => {
                return Err(I18nParseError);
            },
        };
        proof {
            lemma_byte_len_prefix(sv, i as int, n as int);
            lemma_byte_len_prefix(sv, 0, n as int);
        }
        match t {
            Tok::Text(a, b) => {
                let piece = s.substring_char(a, b);
                let plen = piece.as_bytes().len();
                proof {
                    assert(piece.spec_bytes() == encode_utf8(piece@));
                    let tv = sv.subrange(a as int, b as int);
                    if a == i && b == n {
                        // plain text: the bytes are those of the input between i and n
                    } else {
                        // an escaped bracket or brace: one ASCII character
                        assert(b == a + 1 && n == i + 2);
                        lemma_ascii_char_byte_len(sv[a as int]);
                        assert(tv =~= seq![sv[a as int]]);
                        lemma_byte_len_prefix(sv, i as int, i + 1);
                        lemma_byte_len_prefix(sv, i + 1, n as int);
                        lemma_byte_len_prefix(sv, i as int, n as int);
                        assert(sv.subrange(i as int, i + 1) =~= tv);
                    }
                    lemma_encode_concat(seg, tv);
                    assert(byte_len(sv.take(n as int)) <= total);
                }
                format.append(piece);
                fmt_len = fmt_len + plen;
                proof {
                    let tv = sv.subrange(a as int, b as int);
                    assert(segs.flatten() + (seg + tv) =~= (segs.flatten() + seg) + tv);
                    seg = seg + tv;
                }
            },
            Tok::Style(st) => {
                let ghost prev = contexts@;
                contexts.push((fmt_len, I18nFormatCtx::Style(st)));
                fmt_len = 0;
                proof {
                    assert(contexts_view(contexts@) =~= contexts_view(prev).push(
                        (byte_len(seg), I18nFormatCtxView::Style(st)),
                    ));
                    lemma_flatten_push(segs, seg);
                    segs = segs.push(seg);
                    seg = seq![];
                    assert(format@ =~= segs.flatten() + seg);
                }
            },
            Tok::Argument(a, b) => {
                let name = s.substring_char(a, b).to_owned();
                let ghost prev = contexts@;
                contexts.push((fmt_len, I18nFormatCtx::Argument(name)));
                fmt_len = 0;
                proof {
                    assert(contexts_view(contexts@) =~= contexts_view(prev).push(
                        (byte_len(seg), I18nFormatCtxView::Argument(sv.subrange(a as int, b as int))),
                    ));
                    lemma_flatten_push(segs, seg);
                    segs = segs.push(seg);
                    seg = seq![];
                    assert(format@ =~= segs.flatten() + seg);
                }
            },
        }
        i = n;
    }
    proof {
        lemma_offsets_ok(segs, seg, contexts_view(contexts@));
    }
    Ok(I18nEntry { format, contexts })
}


// ---------------------------------------------------------------------------------------------
// Formatting
// ---------------------------------------------------------------------------------------------
/// The value of the first argument named `name`.
pub open spec fn lookup_argument(args: Seq<(Seq<char>, Seq<char>)>, name: Seq<char>) -> Option<
    Seq<char>,
>
    decreases args.len(),
{
    if args.len() == 0 {
        None
    } else if args[0].0 == name {
        Some(args[0].1)
    } else {
        lookup_argument(args.drop_first(), name)
    }
}

pub open spec fn arguments_view(args: Seq<(String, String)>) -> Seq<(Seq<char>, Seq<char>)> {
    args.map_values(|p: (String, String)| (p.0@, p.1@))
}

/// The styled pieces of text that the remaining `bytes` of an entry's text give, with the
/// remaining `contexts`, the `args` and the current `style`: the text before each context (if
/// any), then for a style context nothing (the style changes), for an argument its value (if
/// it has one); at the end the text that remains (if any).
pub open spec fn spec_format_pieces(
    bytes: Seq<u8>,
    contexts: Seq<(nat, I18nFormatCtxView)>,
    args: Seq<(Seq<char>, Seq<char>)>,
    style: I18nStyle,
) -> Seq<(Seq<u8>, I18nStyle)>
    decreases contexts.len(),
{
    if contexts.len() == 0 {
        if bytes.len() > 0 {
            seq![(bytes, style)]
        } else {
            seq![]
        }
    } else {
        let off = contexts[0].0 as int;
        let head = if off > 0 {
            seq![(bytes.subrange(0, off), style)]
        } else {
            seq![]
        };
        let rest = bytes.subrange(off, bytes.len() as int);
        match contexts[0].1 {
            I18nFormatCtxView::Style(ns) => head + spec_format_pieces(
                rest,
                contexts.drop_first(),
                args,
                ns,
            ),
            I18nFormatCtxView::Argument(name) => head + match lookup_argument(args, name) {
                Some(v) => seq![(encode_utf8(v), style)],
                None => seq![],
            } + spec_format_pieces(rest, contexts.drop_first(), args, style),
        }
    }
}

pub open spec fn pieces_view(p: Seq<(String, I18nStyle)>) -> Seq<(Seq<u8>, I18nStyle)> {
    p.map_values(|x: (String, I18nStyle)| (encode_utf8(x.0@), x.1))
}

/// The concatenated bytes of styled pieces.
pub open spec fn pieces_bytes(p: Seq<(Seq<u8>, I18nStyle)>) -> Seq<u8>
    decreases p.len(),
{
    if p.len() == 0 {
        seq![]
    } else {
        p[0].0 + pieces_bytes(p.drop_first())
    }
}

proof fn lemma_encode_empty(c: Seq<char>)
    ensures
        (encode_utf8(c).len() == 0) == (c.len() == 0),
{
    if c.len() > 0 {
        assert(encode_scalar(c[0] as u32).len() >= 1);
    }
}

fn find_argument(args: &Vec<(String, String)>, name: &String) -> (r: Option<String>)
    ensures
        match r {
            Some(v) => lookup_argument(arguments_view(args@), name@) == Some(v@),
            None => lookup_argument(arguments_view(args@), name@) is None,
        },
{
    let mut j: usize = 0;
    proof {
        assert(arguments_view(args@).skip(0) =~= arguments_view(args@));
    }
    while j < args.len()
        invariant
            j <= args.len(),
            lookup_argument(arguments_view(args@), name@) == lookup_argument(
                arguments_view(args@).skip(j as int),
                name@,
            ),
        decreases args.len() - j,
    {
        let ghost rest = arguments_view(args@).skip(j as int);
        proof {
            assert(rest.drop_first() =~= arguments_view(args@).skip(j + 1));
            assert(rest[0] == (args@[j as int].0@, args@[j as int].1@));
        }
        if args[j].0 == *name {
            return Some(args[j].1.clone());
        }
        j = j + 1;
    }
    proof {
        assert(arguments_view(args@).skip(j as int).len() == 0);
    }
    None
}

impl I18nEntry {
    /// The styled pieces of text of this entry, with the values of its arguments taken from
    /// `arguments` (name and value pairs; an argument without a value gives no piece).
    /// Text starts in the default style; each style context sets the style of what follows.
    pub fn format(&self, arguments: &Vec<(String, String)>) -> (pieces: Vec<(String, I18nStyle)>)
        requires
            self.wf(),
        ensures
            pieces_view(pieces@) == spec_format_pieces(
                encode_utf8(self@.format),
                self@.contexts,
                arguments_view(arguments@),
                I18nStyle::spec_default(),
            ),
    {
        let ghost all = spec_format_pieces(
            encode_utf8(self@.format),
            self@.contexts,
            arguments_view(arguments@),
            I18nStyle::spec_default(),
        );
        let ghost ctxs = contexts_view(self.contexts@);
        let mut style = I18nStyle::default();
        let mut string: &str = self.format.as_str();
        let mut out: Vec<(String, I18nStyle)> = Vec::new();
        let mut k: usize = 0;
        proof {
            assert(ctxs.skip(0) =~= ctxs);
            assert(pieces_view(out@) =~= Seq::<(Seq<u8>, I18nStyle)>::empty());
            assert(pieces_view(out@) + all =~= all);
        }
        while k < self.contexts.len()
            invariant
                ctxs == contexts_view(self.contexts@),
                ctxs == self@.contexts,
                k <= self.contexts.len(),
                all == pieces_view(out@) + spec_format_pieces(
                    string.spec_bytes(),
                    ctxs.skip(k as int),
                    arguments_view(arguments@),
                    style,
                ),
                offsets_ok(string.spec_bytes(), ctxs.skip(k as int)),
            decreases self.contexts.len() - k,
        {
            let ghost rest_ctxs = ctxs.skip(k as int);
            let ghost bytes = string.spec_bytes();
            let ghost old_style = style;
            let offset = self.contexts[k].0;
            proof {
                assert(rest_ctxs[0] == ctxs[k as int]);
                assert(rest_ctxs.drop_first() =~= ctxs.skip(k + 1));
                assert(rest_ctxs[0].0 == offset as nat);
            }
            let (slice, new_string) = string.split_at(offset);
            let ghost old_out = pieces_view(out@);
            string = new_string;
            if offset > 0 {
                out.push((slice.to_owned(), style));
                proof {
                    assert(pieces_view(out@) =~= old_out + seq![(bytes.subrange(0, offset as int), style)]);
                }
            } else {
                proof {
                    assert(pieces_view(out@) =~= old_out + Seq::<(Seq<u8>, I18nStyle)>::empty());
                }
            }
            let ghost mid_out = pieces_view(out@);
            match &self.contexts[k].1 {
                I18nFormatCtx::Style(ns) => {
                    style = *ns;
                },
                I18nFormatCtx::Argument(arg) => {
                    match find_argument(arguments, arg) {
                        Some(v) => {
                            out.push((v, style));
                            proof {
                                assert(pieces_view(out@) =~= mid_out + seq![(encode_utf8(v@), style)]);
                            }
                        },
                        None => {
                            proof {
                                assert(pieces_view(out@) =~= mid_out + Seq::<(Seq<u8>, I18nStyle)>::empty());
                            }
                        },
                    }
                },
            }
            proof {
                let tail = ctxs.skip(k + 1);
                let args = arguments_view(arguments@);
                assert(string.spec_bytes() =~= bytes.subrange(offset as int, bytes.len() as int));
                let unfolded = spec_format_pieces(bytes, rest_ctxs, args, old_style);
                let rest_pieces = spec_format_pieces(string.spec_bytes(), tail, args, style);
                assert(unfolded =~= (pieces_view(out@).subrange(old_out.len() as int, pieces_view(out@).len() as int)) + rest_pieces);
                assert(pieces_view(out@) =~= old_out + pieces_view(out@).subrange(old_out.len() as int, pieces_view(out@).len() as int));
                assert(all =~= pieces_view(out@) + rest_pieces);
                assert(offsets_ok(string.spec_bytes(), tail));
            }
            k = k + 1;
        }
        proof {
            assert(ctxs.skip(k as int).len() == 0);
            lemma_encode_empty(string@);
        }
        if !string.is_empty() {
            let ghost before = pieces_view(out@);
            out.push((string.to_owned(), style));
            proof {
                assert(pieces_view(out@) =~= before + seq![(string.spec_bytes(), style)]);
            }
        } else {
            proof {
                assert(pieces_view(out@) =~= pieces_view(out@) + Seq::<(Seq<u8>, I18nStyle)>::empty());
            }
        }
        out
    }
}

// ---------------------------------------------------------------------------------------------
// Locales
// ---------------------------------------------------------------------------------------------
/// The lower-case form of a text, as `str::to_lowercase` gives it.
pub uninterp spec fn lowercase(s: Seq<char>) -> Seq<char>;

/// `str::to_lowercase` of std: the text with every character in its Unicode lower-case form.
#[verifier::external_body]
fn str_to_lowercase(s: &str) -> (r: String)
    ensures
        r@ == lowercase(s@),
{
    s.to_lowercase()
}

/// A language the game is translated into.
#[derive(Debug, Clone, Copy, PartialEq, Eq, Structural, Hash, Default)]
pub enum Locale {
    #[default]
    EnUS,
}

/// A locale name that is no locale's.
#[derive(Debug, Clone, Copy, PartialEq, Eq, Structural)]
pub struct LocaleParseError;

/// The locale whose name, in lower case, is `lower`.
pub open spec fn spec_locale_of_lowercase(lower: Seq<char>) -> Option<Locale> {
    if lower == seq!['e', 'n', 'u', 's'] {
        Some(Locale::EnUS)
    } else {
        None
    }
}

/// The character in ASCII upper case.
pub open spec fn ascii_upper(c: char) -> char {
    if 'a' <= c && c <= 'z' {
        ((c as u32) - 32) as char
    } else {
        c
    }
}

/// A language tag of the form `ll-RR`.
pub open spec fn is_bcp47_pair(bcp: Seq<char>) -> bool {
    bcp.len() == 5 && bcp[2] == '-'
}

/// The name of the locale of a `ll-RR` tag: the language with its first letter in upper case,
/// then the region.
pub open spec fn spec_bcp47_ident(bcp: Seq<char>) -> Seq<char> {
    seq![ascii_upper(bcp[0]), bcp[1], bcp[3], bcp[4]]
}

impl Locale {
    /// The locale of a name in lower case.
    pub fn from_lowercase_name(lower: &str) -> (r: Option<Locale>)
        ensures
            r == spec_locale_of_lowercase(lower@),
    {
        proof {
            reveal_strlit("enus");
            assert("enus"@ =~= seq!['e', 'n', 'u', 's']);
        }
        if crate::text::str_eq(lower, "enus") {
            Some(Locale::EnUS)
        } else {
            None
        }
    }

    /// The locale named `s`, case aside.
    pub fn parse_name(s: &str) -> (r: Result<Locale, LocaleParseError>)
        ensures
            r == match spec_locale_of_lowercase(lowercase(s@)) {
                Some(l) => Ok(l),
                None => Err(LocaleParseError),
            },
    {
        let lower = str_to_lowercase(s);
        match Locale::from_lowercase_name(lower.as_str()) {
            Some(l) => Ok(l),
            None => Err(LocaleParseError),
        }
    }

    /// The name of the locale of a `ll-RR` language tag (`en-US` gives `EnUS`).
    pub fn bcp47_to_ident(bcp: &str) -> (r: String)
        requires
            is_bcp47_pair(bcp@),
        ensures
            r@ == spec_bcp47_ident(bcp@),
    {
        let c0 = bcp.get_char(0);
        let first: String = if 'a' <= c0 && c0 <= 'z' {
            let alphabet = "ABCDEFGHIJKLMNOPQRSTUVWXYZ";
            proof {
                reveal_strlit("ABCDEFGHIJKLMNOPQRSTUVWXYZ");
            }
            let k = (c0 as u32 - 'a' as u32) as usize;
            let upper = alphabet.substring_char(k, k + 1);
            proof {
                assert(upper@ =~= seq![alphabet@[k as int]]);
                assert(alphabet@[k as int] == ascii_upper(c0)) by {
                    assert(alphabet@ == seq!['A', 'B', 'C', 'D', 'E', 'F', 'G', 'H', 'I', 'J', 'K', 'L', 'M',
                        'N', 'O', 'P', 'Q', 'R', 'S', 'T', 'U', 'V', 'W', 'X', 'Y', 'Z']);
                }
            }
            String::from_str(upper)
        } else {
            String::from_str(bcp.substring_char(0, 1))
        };
        let mut out = first;
        out.append(bcp.substring_char(1, 2));
        out.append(bcp.substring_char(3, 5));
        proof {
            assert(out@ =~= spec_bcp47_ident(bcp@));
        }
        out
    }

    /// The locale of a `ll-RR` language tag, if the game has it.
    pub fn from_bcp47(bcp: &str) -> (r: Option<Locale>)
        requires
            is_bcp47_pair(bcp@),
        ensures
            r == spec_locale_of_lowercase(lowercase(spec_bcp47_ident(bcp@))),
    {
        let ident = Locale::bcp47_to_ident(bcp);
        match Locale::parse_name(ident.as_str()) {
            Ok(l) => Some(l),
            Err(_) => None,
        }
    }

    /// The locale of the system's language tag when the game has it, English otherwise.
    pub fn from_system(tag: Option<&str>) -> (l: Locale)
        requires
            tag matches Some(t) ==> is_bcp47_pair(t@),
        ensures
            l == match tag {
                Some(t) => match spec_locale_of_lowercase(lowercase(spec_bcp47_ident(t@))) {
                    Some(l) => l,
                    None => Locale::EnUS,
                },
                None => Locale::EnUS,
            },
    {
        match tag {
            Some(t) => match Locale::from_bcp47(t) {
                Some(l) => l,
                None => Locale::EnUS,
            },
            None => Locale::EnUS,
        }
    }
}

impl core::str::FromStr for Locale {
    type Err = LocaleParseError;

    fn from_str(s: &str) -> (r: Result<Locale, LocaleParseError>)
        ensures
            r == match spec_locale_of_lowercase(lowercase(s@)) {
                Some(l) => Ok(l),
                None => Err(LocaleParseError),
            },
    {
        Locale::parse_name(s)
    }
}


// ---------------------------------------------------------------------------------------------
// Localized components and notifications
// ---------------------------------------------------------------------------------------------
/// The value of the last argument named `name`.
pub open spec fn last_argument(args: Seq<(Seq<char>, Seq<char>)>, name: Seq<char>) -> Option<Seq<char>>
    decreases args.len(),
{
    if args.len() == 0 {
        None
    } else if args.last().0 == name {
        Some(args.last().1)
    } else {
        last_argument(args.drop_last(), name)
    }
}

/// Whether no two arguments share a name.
pub open spec fn distinct_names(args: Seq<(Seq<char>, Seq<char>)>) -> bool {
    forall|i: int, j: int| 0 <= i < j < args.len() ==> (#[trigger] args[i]).0 != (#[trigger] args[j]).0
}

proof fn lemma_last_argument_prepend(x: (Seq<char>, Seq<char>), t: Seq<(Seq<char>, Seq<char>)>, name: Seq<char>)
    ensures
        last_argument(seq![x] + t, name) == (if last_argument(t, name) is Some {
            last_argument(t, name)
        } else if x.0 == name {
            Some(x.1)
        } else {
            None
        }),
    decreases t.len(),
{
    if t.len() == 0 {
        assert((seq![x] + t).drop_last() =~= Seq::<(Seq<char>, Seq<char>)>::empty());
    } else {
        assert((seq![x] + t).drop_last() =~= seq![x] + t.drop_last());
        assert((seq![x] + t).last() == t.last());
        lemma_last_argument_prepend(x, t.drop_last(), name);
    }
}

proof fn lemma_lookup_push(args: Seq<(Seq<char>, Seq<char>)>, p: (Seq<char>, Seq<char>), name: Seq<char>)
    ensures
        lookup_argument(args.push(p), name) == (if lookup_argument(args, name) is Some {
            lookup_argument(args, name)
        } else if p.0 == name {
            Some(p.1)
        } else {
            None
        }),
    decreases args.len(),
{
    assert(args.push(p)[0] == if args.len() > 0 { args[0] } else { p });
    if args.len() > 0 {
        assert(args.push(p).drop_first() =~= args.drop_first().push(p));
        lemma_lookup_push(args.drop_first(), p, name);
    } else {
        assert(args.push(p).drop_first() =~= Seq::<(Seq<char>, Seq<char>)>::empty());
    }
}

proof fn lemma_lookup_absent(args: Seq<(Seq<char>, Seq<char>)>, name: Seq<char>)
    requires
        forall|i: int| 0 <= i < args.len() ==> (#[trigger] args[i]).0 != name,
    ensures
        lookup_argument(args, name) is None,
    decreases args.len(),
{
    if args.len() > 0 {
        assert forall|i: int| 0 <= i < args.drop_first().len() implies (#[trigger] args.drop_first()[i]).0 != name by {
            assert(args.drop_first()[i] == args[i + 1]);
        }
        lemma_lookup_absent(args.drop_first(), name);
    }
}

proof fn lemma_lookup_present(args: Seq<(Seq<char>, Seq<char>)>, name: Seq<char>, k: int)
    requires
        0 <= k < args.len(),
        args[k].0 == name,
    ensures
        lookup_argument(args, name) is Some,
    decreases args.len(),
{
    if args[0].0 != name {
        assert(args.drop_first()[k - 1] == args[k]);
        lemma_lookup_present(args.drop_first(), name, k - 1);
    }
}

/// A localized text shown by an entity: the key of its entry and the values of its arguments
/// (each name once).
#[derive(Debug, Clone)]
pub struct I18n {
    pub key: String,
    pub arguments: Vec<(String, String)>,
}

impl I18n {
    /// The text of `key` with the given arguments; of arguments sharing a name, the last one
    /// counts.
    pub fn new(key: String, arguments: Vec<(String, String)>) -> (r: I18n)
        ensures
            r.key@ == key@,
            distinct_names(arguments_view(r.arguments@)),
            forall|name: Seq<char>| #[trigger] lookup_argument(arguments_view(r.arguments@), name) == last_argument(
                arguments_view(arguments@),
                name,
            ),
    {
        let ghost all = arguments_view(arguments@);
        let mut out: Vec<(String, String)> = Vec::new();
        let mut i: usize = arguments.len();
        proof {
            assert(all.skip(i as int) =~= Seq::<(Seq<char>, Seq<char>)>::empty());
        }
        while i > 0
            invariant
                i <= arguments@.len(),
                all == arguments_view(arguments@),
                distinct_names(arguments_view(out@)),
                forall|name: Seq<char>| #[trigger] lookup_argument(arguments_view(out@), name) == last_argument(
                    all.skip(i as int),
                    name,
                ),
            decreases i,
        {
            let ghost prev = arguments_view(out@);
            let name = &arguments[i - 1].0;
            let mut present = false;
            let mut k: usize = 0;
            while k < out.len()
                invariant
                    k <= out@.len(),
                    present == (exists|m: int| 0 <= m < k && (#[trigger] out@[m]).0@ == name@),
                decreases out.len() - k,
            {
                if crate::text::str_eq(out[k].0.as_str(), name.as_str()) {
                    present = true;
                }
                k = k + 1;
            }
            let ghost x = all[i - 1];
            proof {
                assert(all.skip(i - 1) =~= seq![x] + all.skip(i as int));
                assert(x == (arguments@[i - 1].0@, arguments@[i - 1].1@));
            }
            if !present {
                out.push((name.clone(), arguments[i - 1].1.clone()));
                proof {
                    assert(arguments_view(out@) =~= prev.push(x));
                    assert forall|a: int, b: int| 0 <= a < b < arguments_view(out@).len() implies (#[trigger] arguments_view(
                        out@,
                    )[a]).0 != (#[trigger] arguments_view(out@)[b]).0 by {
                        if b == prev.len() {
                            assert(arguments_view(out@)[a] == prev[a]);
                            assert(prev[a] == (out@[a].0@, out@[a].1@));
                        }
                    }
                    assert forall|n: Seq<char>| #[trigger] lookup_argument(arguments_view(out@), n) == last_argument(
                        all.skip(i - 1),
                        n,
                    ) by {
                        lemma_last_argument_prepend(x, all.skip(i as int), n);
                        lemma_lookup_push(prev, x, n);
                    }
                }
            } else {
                proof {
                    let m = choose|m: int| 0 <= m < out@.len() && (#[trigger] out@[m]).0@ == name@;
                    assert(prev[m].0 == x.0);
                    lemma_lookup_present(prev, x.0, m);
                    assert forall|n: Seq<char>| #[trigger] lookup_argument(arguments_view(out@), n) == last_argument(
                        all.skip(i - 1),
                        n,
                    ) by {
                        lemma_last_argument_prepend(x, all.skip(i as int), n);
                    }
                }
            }
            i = i - 1;
        }
        proof {
            assert(all.skip(0) =~= all);
        }
        I18n { key, arguments: out }
    }
}

/// The localization entries of a locale, by key; a later entry replaces an earlier one.
#[derive(Debug, Clone, Default)]
pub struct I18nEntries(pub Vec<(String, I18nEntry)>);

impl I18nEntries {
    /// The entry of `key`.
    pub fn get(&self, key: &str) -> (r: Option<&I18nEntry>)
        ensures
            match r {
                Some(e) => crate::logic::level::pairs_map(self.0@).contains_key(key@) && *e == crate::logic::level::pairs_map(
                    self.0@,
                )[key@],
                None => !crate::logic::level::pairs_map(self.0@).contains_key(key@),
            },
    {
        match crate::logic::level::last_index_of(&self.0, key) {
            Some(i) => Some(&self.0[i].1),
            None => None,
        }
    }
}

impl I18nEntry {
    /// A copy of this entry.
    pub fn duplicate(&self) -> (e: I18nEntry)
        ensures
            e@ == self@,
            e.wf() == self.wf(),
    {
        let mut contexts: Vec<(usize, I18nFormatCtx)> = Vec::new();
        let mut i: usize = 0;
        while i < self.contexts.len()
            invariant
                i <= self.contexts@.len(),
                contexts@.len() == i,
                forall|k: int| 0 <= k < i ==> (#[trigger] contexts@[k]).0 == self.contexts@[k].0 && contexts@[k].1@ == self.contexts@[k].1@,
            decreases self.contexts.len() - i,
        {
            let ctx = match &self.contexts[i].1 {
                I18nFormatCtx::Style(st) => I18nFormatCtx::Style(*st),
                I18nFormatCtx::Argument(a) => I18nFormatCtx::Argument(a.clone()),
            };
            contexts.push((self.contexts[i].0, ctx));
            i = i + 1;
        }
        let e = I18nEntry { format: self.format.clone(), contexts };
        proof {
            assert(contexts_view(e.contexts@) =~= contexts_view(self.contexts@));
        }
        e
    }
}

/// What an entity showing localized text is told: the locale, the entry of its key and its
/// arguments.
#[derive(Debug)]
pub struct I18nNotify {
    pub locale: Locale,
    pub fmt: I18nEntry,
    pub arguments: Vec<(String, String)>,
}

/// Why an entity's localized text could not be refreshed.
#[derive(Debug, Clone, PartialEq, Eq)]
pub enum I18nNotifyError {
    /// The entries of the locale are not loaded.
    EntriesUnloaded,
    /// The locale has no entry of this key.
    MissingKey(String),
}

/// Refreshes every entity that shows localized text.
#[derive(Debug, Clone, Copy, PartialEq, Eq, Structural, Default)]
pub struct I18nNotifyAll;

/// Refreshes one entity that shows localized text.
#[derive(Debug, Clone, Copy, PartialEq, Eq, Structural, Default)]
pub struct I18nNotifyOne;

/// Reads the localization entries of a locale.
#[derive(Debug, Clone, Copy, PartialEq, Eq, Structural, Default)]
pub struct I18nEntriesLoader;

impl I18nEntriesLoader {
    /// The file extension of localization entries.
    pub fn extension(&self) -> (e: &'static str)
        ensures
            e@ == "ron"@,
    {
        "ron"
    }
}

impl I18nNotifyOne {
    /// What refreshing an entity tells it, given its localized text (if any), the current locale
    /// and that locale's entries (if loaded): nothing without a text; the locale, the entry of
    /// the text's key and its arguments otherwise; an error when the entries are not loaded or
    /// lack the key.
    pub fn notify(&self, i18n: Option<&I18n>, locale: Locale, entries: Option<&I18nEntries>) -> (r: Result<
        Option<I18nNotify>,
        I18nNotifyError,
    >)
        ensures
            i18n is None ==> (r matches Ok(None)),
            i18n matches Some(t) ==> match entries {
                None => r == Err::<Option<I18nNotify>, I18nNotifyError>(I18nNotifyError::EntriesUnloaded),
                Some(es) => if crate::logic::level::pairs_map(es.0@).contains_key(t.key@) {
                    r matches Ok(Some(n)) && n.locale == locale && n.fmt@ == crate::logic::level::pairs_map(es.0@)[t.key@]@
                        && arguments_view(n.arguments@) == arguments_view(t.arguments@)
                } else {
                    r matches Err(I18nNotifyError::MissingKey(k)) && k@ == t.key@
                },
            },
    {
        let t = match i18n {
            Some(t) => t,
            None => {
                return Ok(None);
            },
        };
        let es = match entries {
            Some(es) => es,
            None => {
                return Err(I18nNotifyError::EntriesUnloaded);
            },
        };
        let fmt = match es.get(t.key.as_str()) {
            Some(e) => e.duplicate(),
            None => {
                return Err(I18nNotifyError::MissingKey(t.key.clone()));
            },
        };
        let mut arguments: Vec<(String, String)> = Vec::new();
        let mut i: usize = 0;
        while i < t.arguments.len()
            invariant
                i <= t.arguments@.len(),
                arguments_view(arguments@) == arguments_view(t.arguments@.take(i as int)),
            decreases t.arguments.len() - i,
        {
            arguments.push((t.arguments[i].0.clone(), t.arguments[i].1.clone()));
            proof {
                assert(arguments_view(t.arguments@.take(i + 1)) =~= arguments_view(t.arguments@.take(i as int)).push(
                    (t.arguments@[i as int].0@, t.arguments@[i as int].1@),
                ));
                assert(arguments_view(arguments@) =~= arguments_view(t.arguments@.take(i as int)).push(
                    (t.arguments@[i as int].0@, t.arguments@[i as int].1@),
                ));
            }
            i = i + 1;
        }
        proof {
            assert(t.arguments@.take(i as int) =~= t.arguments@);
        }
        Ok(Some(I18nNotify { locale, fmt, arguments }))
    }
}

/// The current locale and the entities that show localized text.
#[derive(Debug, Clone)]
pub struct I18nContext {
    current_locale: Locale,
    listeners: Vec<crate::entity::Entity>,
}

impl I18nContext {
    pub closed spec fn locale_view(&self) -> Locale {
        self.current_locale
    }

    pub closed spec fn listeners_view(&self) -> Set<crate::entity::Entity> {
        self.listeners@.to_set()
    }

    pub closed spec fn wf(&self) -> bool {
        self.listeners@.no_duplicates()
    }

    /// A context for the system's language tag (see [`Locale::from_system`]), with no
    /// listeners.
    pub fn new(system_tag: Option<&str>) -> (c: I18nContext)
        requires
            system_tag matches Some(t) ==> is_bcp47_pair(t@),
        ensures
            c.wf(),
            c.locale_view() == Locale::from_system_spec(system_tag),
            c.listeners_view() == Set::<crate::entity::Entity>::empty(),
    {
        let c = I18nContext { current_locale: Locale::from_system(system_tag), listeners: Vec::new() };
        proof {
            assert(c.listeners@.to_set() =~= Set::<crate::entity::Entity>::empty());
        }
        c
    }

    /// The current locale.
    pub fn current_locale(&self) -> (l: Locale)
        ensures
            l == self.locale_view(),
    {
        self.current_locale
    }

    /// Starts refreshing `e` when the locale changes.
    pub fn listen(&mut self, e: crate::entity::Entity)
        requires
            old(self).wf(),
        ensures
            final(self).wf(),
            final(self).listeners_view() == old(self).listeners_view().insert(e),
            final(self).locale_view() == old(self).locale_view(),
    {
        let ghost prev = self.listeners@;
        let mut k: usize = 0;
        while k < self.listeners.len()
            invariant
                k <= self.listeners@.len(),
                self.listeners@ == prev,
                self.current_locale == old(self).current_locale,
                prev.no_duplicates(),
                forall|m: int| 0 <= m < k ==> self.listeners@[m] != e,
            decreases self.listeners.len() - k,
        {
            if self.listeners[k].0 == e.0 {
                proof {
                    assert(self.listeners@.to_set().contains(e));
                    assert(self.listeners@.to_set().insert(e) =~= self.listeners@.to_set());
                }
                return;
            }
            k = k + 1;
        }
        self.listeners.push(e);
        proof {
            prev.lemma_push_to_set_commute(e);
            assert forall|a: int, b: int| 0 <= a < b < self.listeners@.len() implies self.listeners@[a]
                != self.listeners@[b] by {
                if b == prev.len() {
                    assert(self.listeners@[a] == prev[a]);
                }
            }
        }
    }

    /// The entities to refresh.
    pub fn listeners(&self) -> (v: Vec<crate::entity::Entity>)
        requires
            self.wf(),
        ensures
            v@.to_set() == self.listeners_view(),
            v@.no_duplicates(),
    {
        let mut v: Vec<crate::entity::Entity> = Vec::new();
        let mut i: usize = 0;
        while i < self.listeners.len()
            invariant
                i <= self.listeners@.len(),
                v@ == self.listeners@.take(i as int),
            decreases self.listeners.len() - i,
        {
            v.push(self.listeners[i]);
            proof {
                assert(self.listeners@.take(i + 1) =~= self.listeners@.take(i as int).push(self.listeners@[i as int]));
            }
            i = i + 1;
        }
        proof {
            assert(self.listeners@.take(i as int) =~= self.listeners@);
        }
        v
    }
}

impl Locale {
    /// The locale that [`Locale::from_system`] gives.
    pub open spec fn from_system_spec(tag: Option<&str>) -> Locale {
        match tag {
            Some(t) => match spec_locale_of_lowercase(lowercase(spec_bcp47_ident(t@))) {
                Some(l) => l,
                None => Locale::EnUS,
            },
            None => Locale::EnUS,
        }
    }
}


// ---------------------------------------------------------------------------------------------
// Laws of formatting
// ---------------------------------------------------------------------------------------------
proof fn lemma_pieces_bytes_concat(a: Seq<(Seq<u8>, I18nStyle)>, b: Seq<(Seq<u8>, I18nStyle)>)
    ensures
        pieces_bytes(a + b) == pieces_bytes(a) + pieces_bytes(b),
    decreases a.len(),
{
    if a.len() == 0 {
        assert(a + b =~= b);
    } else {
        assert((a + b).drop_first() =~= a.drop_first() + b);
        assert((a + b)[0] == a[0]);
        lemma_pieces_bytes_concat(a.drop_first(), b);
    }
}

proof fn lemma_single_piece(b: Seq<u8>, s: I18nStyle)
    ensures
        pieces_bytes(seq![(b, s)]) == b,
{
    let one = seq![(b, s)];
    assert(one.drop_first() =~= Seq::<(Seq<u8>, I18nStyle)>::empty());
    assert(pieces_bytes(one.drop_first()) == Seq::<u8>::empty());
    assert(one[0].0 == b);
    assert(pieces_bytes(one) == one[0].0 + pieces_bytes(one.drop_first()));
    assert(b + Seq::<u8>::empty() =~= b);
}

/// Without argument values, the pieces of any remaining text, put together, are that text.
pub proof fn lemma_format_pieces_text(bytes: Seq<u8>, contexts: Seq<(nat, I18nFormatCtxView)>, style: I18nStyle)
    requires
        offsets_ok(bytes, contexts),
    ensures
        pieces_bytes(spec_format_pieces(bytes, contexts, Seq::empty(), style)) == bytes,
    decreases contexts.len(),
{
    if contexts.len() == 0 {
        if bytes.len() > 0 {
            lemma_single_piece(bytes, style);
        } else {
            assert(bytes =~= Seq::<u8>::empty());
        }
    } else {
        let off = contexts[0].0 as int;
        let head: Seq<(Seq<u8>, I18nStyle)> = if off > 0 {
            seq![(bytes.subrange(0, off), style)]
        } else {
            seq![]
        };
        let rest = bytes.subrange(off, bytes.len() as int);
        assert(pieces_bytes(head) == bytes.subrange(0, off)) by {
            if off > 0 {
                lemma_single_piece(bytes.subrange(0, off), style);
            } else {
                assert(bytes.subrange(0, off) =~= Seq::<u8>::empty());
            }
        }
        match contexts[0].1 {
            I18nFormatCtxView::Style(ns) => {
                lemma_format_pieces_text(rest, contexts.drop_first(), ns);
                lemma_pieces_bytes_concat(head, spec_format_pieces(rest, contexts.drop_first(), Seq::empty(), ns));
            },
            I18nFormatCtxView::Argument(name) => {
                assert(lookup_argument(Seq::<(Seq<char>, Seq<char>)>::empty(), name) is None);
                lemma_format_pieces_text(rest, contexts.drop_first(), style);
                let tail = spec_format_pieces(rest, contexts.drop_first(), Seq::empty(), style);
                assert(head + Seq::<(Seq<u8>, I18nStyle)>::empty() + tail =~= head + tail);
                lemma_pieces_bytes_concat(head, tail);
            },
        }
        assert(bytes.subrange(0, off) + rest =~= bytes);
    }
}

/// Formatting an entry without argument values gives back its text: the pieces, put together,
/// are the entry's text (styles only split it, and arguments without a value add nothing).
pub proof fn law_format_without_arguments_is_text(e: I18nEntry)
    requires
        e.wf(),
    ensures
        pieces_bytes(spec_format_pieces(encode_utf8(e@.format), e@.contexts, Seq::empty(), I18nStyle::spec_default()))
            == encode_utf8(e@.format),
{
    lemma_format_pieces_text(encode_utf8(e@.format), e@.contexts, I18nStyle::spec_default());
}


proof fn lemma_plain_end_all(s: Seq<char>, p: int)
    requires
        0 <= p <= s.len(),
        forall|i: int| p <= i < s.len() ==> !is_special(#[trigger] s[i]),
    ensures
        plain_end(s, p) == s.len(),
    decreases s.len() - p,
{
    if p < s.len() {
        lemma_plain_end_all(s, p + 1);
    }
}

/// Text without brackets or braces is read as itself, with no styles or arguments.
pub proof fn law_plain_text_parses_to_itself(s: Seq<char>)
    requires
        forall|i: int| 0 <= i < s.len() ==> !is_special(#[trigger] s[i]),
    ensures
        spec_parse_i18n(s) == Some(I18nEntryView { format: s, contexts: seq![] }),
{
    if s.len() > 0 {
        lemma_plain_end_all(s, 0);
        assert(!is_special(s[0]));
        assert(s.subrange(0, s.len() as int) =~= s);
        assert(seq![] + s =~= s);
        assert(spec_next_token(s, 0) == Some((I18nToken::Text(s), s.len() as int)));
        let e: Seq<char> = seq![];
        let c: Seq<(nat, I18nFormatCtxView)> = seq![];
        assert(spec_parse_from(s, s.len() as int, e + s, e + s, c) == Some(
            I18nEntryView { format: e + s, contexts: c },
        ));
        assert(spec_parse_from(s, 0, e, e, c) == spec_parse_from(s, s.len() as int, e + s, e + s, c));
    } else {
        assert(s =~= Seq::<char>::empty());
    }
}


/// The first index from `i` on where `c` stands, or the length of `s` when there is none.
pub open spec fn find_from(s: Seq<char>, i: int, c: char) -> int
    decreases s.len() - i,
{
    if i < 0 || i >= s.len() {
        s.len() as int
    } else if s[i] == c {
        i
    } else {
        find_from(s, i + 1, c)
    }
}

/// The search from `i` ends between `i` and the end of `s`.
pub proof fn lemma_find_from_bounds(s: Seq<char>, i: int, c: char)
    requires
        0 <= i <= s.len(),
    ensures
        i <= find_from(s, i, c) <= s.len(),
    decreases s.len() - i,
{
    if i < s.len() && s[i] != c {
        lemma_find_from_bounds(s, i + 1, c);
    }
}

proof fn lemma_find_from_at(s: Seq<char>, a: int, b: int, c: char)
    requires
        0 <= a <= b < s.len(),
        s[b] == c,
        forall|k: int| a <= k < b ==> s[k] != c,
    ensures
        find_from(s, a, c) == b,
    decreases b - a,
{
    if a < b {
        lemma_find_from_at(s, a + 1, b, c);
    }
}

/// The text of a localization format string from `i` on, once its markup is taken out: a
/// doubled bracket or brace stands for one, a style bracket `[...]` and an argument `{...}`
/// are dropped up to their closing `]` or `}`, and every other character stays.
pub open spec fn strip_markup(s: Seq<char>, i: int) -> Seq<char>
    decreases s.len() + 1 - i,
{
    if i < 0 || i >= s.len() {
        seq![]
    } else {
        let c = s[i];
        if is_special(c) && i + 1 < s.len() && s[i + 1] == c {
            seq![c] + strip_markup(s, i + 2)
        } else if c == '[' || c == '{' {
            let close = if c == '[' {
                ']'
            } else {
                '}'
            };
            proof {
                lemma_find_from_bounds(s, i + 1, close);
            }
            strip_markup(s, find_from(s, i + 1, close) + 1)
        } else {
            seq![c] + strip_markup(s, i + 1)
        }
    }
}

proof fn lemma_blank_run(s: Seq<char>, p: int)
    requires
        0 <= p <= s.len(),
    ensures
        p <= blank_end(s, p) <= s.len(),
        forall|k: int| p <= k < blank_end(s, p) ==> is_blank(#[trigger] s[k]),
    decreases s.len() - p,
{
    if p < s.len() && is_blank(s[p]) {
        lemma_blank_run(s, p + 1);
    }
}

proof fn lemma_digit_run(s: Seq<char>, p: int)
    requires
        0 <= p <= s.len(),
    ensures
        p <= decimal_end(s, p) <= s.len(),
        forall|k: int| p <= k < decimal_end(s, p) ==> is_decimal(#[trigger] s[k]),
    decreases s.len() - p,
{
    if p < s.len() && is_decimal(s[p]) {
        lemma_digit_run(s, p + 1);
    }
}

proof fn lemma_hex_run(s: Seq<char>, p: int)
    requires
        0 <= p <= s.len(),
    ensures
        p <= hex_end(s, p) <= s.len(),
        forall|k: int| p <= k < hex_end(s, p) ==> crate::color::is_hex_char(#[trigger] s[k]),
    decreases s.len() - p,
{
    if p < s.len() && crate::color::is_hex_char(s[p]) {
        lemma_hex_run(s, p + 1);
    }
}

proof fn lemma_ident_run(s: Seq<char>, p: int)
    requires
        0 <= p <= s.len(),
    ensures
        p <= ident_end(s, p) <= s.len(),
        forall|k: int| p <= k < ident_end(s, p) ==> is_ident_char(#[trigger] s[k]),
    decreases s.len() - p,
{
    if p < s.len() && is_ident_char(s[p]) {
        lemma_ident_run(s, p + 1);
    }
}

proof fn lemma_plain_run(s: Seq<char>, p: int)
    requires
        0 <= p <= s.len(),
    ensures
        p <= plain_end(s, p) <= s.len(),
        forall|k: int| p <= k < plain_end(s, p) ==> !is_special(#[trigger] s[k]),
    decreases s.len() - p,
{
    if p < s.len() && !is_special(s[p]) {
        lemma_plain_run(s, p + 1);
    }
}

proof fn lemma_attr_no_close(s: Seq<char>, p: int)
    ensures
        spec_style_attr(s, p) matches Some((a, u)) ==> p < u <= s.len() && forall|k: int|
            p <= k < u ==> #[trigger] s[k] != ']',
{
    if 0 <= p < s.len() && (s[p] == 's' || s[p] == 'c') {
        lemma_blank_run(s, p + 1);
        let r = blank_end(s, p + 1);
        if r < s.len() && s[r] == ':' {
            lemma_blank_run(s, r + 1);
            let t = blank_end(s, r + 1);
            lemma_digit_run(s, t);
            if t < s.len() {
                lemma_hex_run(s, t + 1);
            }
        }
    }
}

proof fn lemma_rest_no_close(s: Seq<char>, q: int, st: I18nStyle)
    ensures
        spec_style_rest(s, q, st) matches Some((st2, n)) ==> q < n <= s.len() && s[n - 1] == ']' && forall|k: int|
            q <= k < n - 1 ==> #[trigger] s[k] != ']',
    decreases s.len() - q,
{
    if 0 <= q <= s.len() {
        lemma_blank_run(s, q);
        let r = blank_end(s, q);
        if r < s.len() && s[r] == ',' {
            lemma_blank_run(s, r + 1);
            let t = blank_end(s, r + 1);
            lemma_attr_no_close(s, t);
            match spec_style_attr(s, t) {
                Some((a, u)) => if q < u <= s.len() {
                    lemma_rest_no_close(s, u, apply_attr(st, a));
                },
                None => {},
            }
        }
    }
}

proof fn lemma_style_no_close(s: Seq<char>, p: int)
    ensures
        spec_style(s, p) matches Some((st, n)) ==> p < n <= s.len() && s[n - 1] == ']' && forall|k: int|
            p <= k < n - 1 ==> #[trigger] s[k] != ']',
{
    lemma_attr_no_close(s, p);
    match spec_style_attr(s, p) {
        Some((a, u)) => if p < u <= s.len() {
            lemma_rest_no_close(s, u, apply_attr(I18nStyle::spec_default(), a));
        },
        None => {},
    }
}

proof fn lemma_strip_plain(s: Seq<char>, i: int, e: int)
    requires
        0 <= i <= e <= s.len(),
        forall|k: int| i <= k < e ==> !is_special(#[trigger] s[k]),
    ensures
        strip_markup(s, i) == s.subrange(i, e) + strip_markup(s, e),
    decreases e - i,
{
    if i < e {
        assert(!is_special(s[i]));
        lemma_strip_plain(s, i + 1, e);
        assert(s.subrange(i, e) =~= seq![s[i]] + s.subrange(i + 1, e));
        assert(strip_markup(s, i) == seq![s[i]] + strip_markup(s, i + 1));
    } else {
        assert(s.subrange(i, e) =~= Seq::<char>::empty());
    }
}

proof fn lemma_parse_strips(
    s: Seq<char>,
    i: int,
    format: Seq<char>,
    seg: Seq<char>,
    contexts: Seq<(nat, I18nFormatCtxView)>,
)
    requires
        spec_parse_from(s, i, format, seg, contexts) is Some,
    ensures
        spec_parse_from(s, i, format, seg, contexts)->0.format == format + strip_markup(s, i),
    decreases s.len() - i,
{
    if i < 0 || i >= s.len() {
        assert(format + strip_markup(s, i) =~= format);
    } else {
        let c = s[i];
        let (tok, n) = spec_next_token(s, i)->0;
        if c == '[' && !(i + 1 < s.len() && s[i + 1] == '[') {
            lemma_style_no_close(s, i + 1);
            lemma_find_from_at(s, i + 1, n - 1, ']');
            lemma_parse_strips(s, n, format, seq![], contexts.push((byte_len(seg), tok->Context_0)));
        } else if c == '{' && !(i + 1 < s.len() && s[i + 1] == '{') {
            let e = spec_argument(s, i + 1)->0;
            lemma_ident_run(s, i + 1);
            assert forall|k: int| i + 1 <= k < e implies s[k] != '}' by {
                assert(is_ident_char(s[k]));
            }
            lemma_find_from_at(s, i + 1, e, '}');
            lemma_parse_strips(s, n, format, seq![], contexts.push((byte_len(seg), tok->Context_0)));
        } else if is_special(c) {
            let t = seq![c];
            lemma_parse_strips(s, n, format + t, seg + t, contexts);
            assert((format + t) + strip_markup(s, n) =~= format + (t + strip_markup(s, n)));
        } else {
            lemma_plain_run(s, i);
            let e = plain_end(s, i);
            let t = s.subrange(i, e);
            lemma_strip_plain(s, i, e);
            lemma_parse_strips(s, n, format + t, seg + t, contexts);
            assert((format + t) + strip_markup(s, n) =~= format + (t + strip_markup(s, n)));
        }
    }
}

/// The text of a parsed entry is its format string with the markup taken out: every style
/// bracket and every argument dropped, and every doubled bracket or brace read as one (see
/// [`strip_markup`]).
pub proof fn law_parsed_text_strips_markup(s: Seq<char>)
    requires
        spec_parse_i18n(s) is Some,
    ensures
        spec_parse_i18n(s)->0.format == strip_markup(s, 0),
{
    lemma_parse_strips(s, 0, seq![], seq![], seq![]);
    assert(Seq::<char>::empty() + strip_markup(s, 0) =~= strip_markup(s, 0));
}


proof fn lemma_hex_end_at(s: Seq<char>, p: int, e: int)
    requires
        0 <= p <= e < s.len(),
        forall|k: int| p <= k < e ==> crate::color::is_hex_char(#[trigger] s[k]),
        !crate::color::is_hex_char(s[e]),
    ensures
        hex_end(s, p) == e,
    decreases e - p,
{
    if p < e {
        lemma_hex_end_at(s, p + 1, e);
    }
}

proof fn lemma_ascii_byte_len(d: Seq<char>)
    requires
        forall|i: int| 0 <= i < d.len() ==> (#[trigger] d[i] as u32) < 0x80,
    ensures
        crate::text::byte_len(d) == d.len(),
    decreases d.len(),
{
    if d.len() > 0 {
        let rest = d.drop_first();
        assert forall|i: int| 0 <= i < rest.len() implies (#[trigger] rest[i] as u32) < 0x80 by {
            assert(rest[i] == d[i + 1]);
        }
        lemma_ascii_byte_len(rest);
        crate::text::lemma_encode_concat(seq![d[0]], rest);
        assert(d =~= seq![d[0]] + rest);
        crate::text::lemma_ascii_char_byte_len(d[0]);
    } else {
        assert(encode_utf8(d) =~= Seq::<u8>::empty());
    }
}

/// A color attribute reads hexadecimal digits of either case: a style bracket `c: #<digits>]`
/// (after its `[`) whose digits are all hexadecimal (`0`-`9`, `a`-`f` or `A`-`F`) parses
/// exactly when the digits are a color, and then gives that color and ends after the `]`; and
/// three, four, six or eight such digits always are a color.
pub proof fn law_color_style_reads_any_case(d: Seq<char>)
    requires
        d.len() > 0,
        forall|i: int|
            0 <= i < d.len() ==> ('0' <= #[trigger] d[i] && d[i] <= '9') || ('a' <= d[i] && d[i] <= 'f') || ('A' <= d[i]
                && d[i] <= 'F'),
    ensures
        spec_style(seq!['c', ':', ' ', '#'] + d + seq![']'], 0) == match spec_srgba_hex(d) {
            Ok(c) => Some((apply_attr(I18nStyle::spec_default(), StyleAttr::Color(c)), d.len() + 5int)),
            Err(_) => None,
        },
        d.len() == 3 || d.len() == 4 || d.len() == 6 || d.len() == 8 ==> spec_srgba_hex(d) is Ok,
{
    let s = seq!['c', ':', ' ', '#'] + d + seq![']'];
    let e: int = d.len() as int + 4;
    assert(s.len() == e + 1);
    assert(s[0] == 'c' && s[1] == ':' && s[2] == ' ' && s[3] == '#' && s[e] == ']');
    assert forall|k: int| 4 <= k < e implies crate::color::is_hex_char(#[trigger] s[k]) by {
        assert(s[k] == d[k - 4]);
    }
    lemma_hex_end_at(s, 4, e);
    assert(blank_end(s, 1) == 1);
    assert(blank_end(s, 3) == 3);
    assert(blank_end(s, 2) == 3);
    assert(s.subrange(4, e) =~= d);
    assert(blank_end(s, e) == e);
    assert forall|i: int| 0 <= i < d.len() implies crate::color::is_hex_char(#[trigger] d[i]) by {}
    assert(crate::color::all_hex(d));
    assert forall|i: int| 0 <= i < d.len() implies (#[trigger] d[i] as u32) < 0x80 by {}
    lemma_ascii_byte_len(d);
    assert(d[0] != '#' && d[0] != '+');
    match spec_srgba_hex(d) {
        Ok(c) => {
            assert(spec_style_attr(s, 0) == Some((StyleAttr::Color(c), e)));
            assert(spec_style_rest(s, e, apply_attr(I18nStyle::spec_default(), StyleAttr::Color(c))) == Some(
                (apply_attr(I18nStyle::spec_default(), StyleAttr::Color(c)), e + 1),
            ));
        },
        Err(_) => {
            assert(spec_style_attr(s, 0) is None);
        },
    }
}


/// The style in force after the contexts `contexts`, starting from `style`: the style of the last
/// style context among them, or `style` when there is none (arguments do not change it).
pub open spec fn style_after(contexts: Seq<(nat, I18nFormatCtxView)>, style: I18nStyle) -> I18nStyle
    decreases contexts.len(),
{
    if contexts.len() == 0 {
        style
    } else {
        match contexts.last().1 {
            I18nFormatCtxView::Style(ns) => ns,
            I18nFormatCtxView::Argument(_) => style_after(contexts.drop_last(), style),
        }
    }
}

/// The number of bytes of text that the contexts `contexts` span: the sum of their offsets.
pub open spec fn offsets_total(contexts: Seq<(nat, I18nFormatCtxView)>) -> nat
    decreases contexts.len(),
{
    if contexts.len() == 0 {
        0
    } else {
        contexts[0].0 + offsets_total(contexts.drop_first())
    }
}

proof fn lemma_style_after_first(c: Seq<(nat, I18nFormatCtxView)>, style: I18nStyle)
    requires
        c.len() > 0,
    ensures
        style_after(c, style) == style_after(c.drop_first(), match c[0].1 {
            I18nFormatCtxView::Style(ns) => ns,
            I18nFormatCtxView::Argument(_) => style,
        }),
    decreases c.len(),
{
    if c.len() > 1 {
        lemma_style_after_first(c.drop_last(), style);
        assert(c.drop_last().drop_first() =~= c.drop_first().drop_last());
        assert(c.drop_last()[0] == c[0]);
    } else {
        assert(c.drop_last() =~= Seq::<(nat, I18nFormatCtxView)>::empty());
        assert(c.drop_first() =~= Seq::<(nat, I18nFormatCtxView)>::empty());
    }
}

/// Formatting is piecewise: the pieces of an entry's text with the contexts `c1` then `c2` are
/// the pieces of the text that `c1` spans with `c1`, then the pieces of the rest with `c2`, in
/// the style in force after `c1` (see [`style_after`]). So every piece keeps the style of the
/// last style context before it, whatever arguments lie in between.
pub proof fn law_format_pieces_split(
    bytes: Seq<u8>,
    c1: Seq<(nat, I18nFormatCtxView)>,
    c2: Seq<(nat, I18nFormatCtxView)>,
    args: Seq<(Seq<char>, Seq<char>)>,
    style: I18nStyle,
)
    requires
        offsets_total(c1) <= bytes.len(),
    ensures
        spec_format_pieces(bytes, c1 + c2, args, style) == spec_format_pieces(
            bytes.subrange(0, offsets_total(c1) as int),
            c1,
            args,
            style,
        ) + spec_format_pieces(
            bytes.subrange(offsets_total(c1) as int, bytes.len() as int),
            c2,
            args,
            style_after(c1, style),
        ),
    decreases c1.len(),
{
    let p = offsets_total(c1) as int;
    if c1.len() == 0 {
        assert(c1 + c2 =~= c2);
        assert(bytes.subrange(0, 0).len() == 0);
        assert(bytes.subrange(0, bytes.len() as int) =~= bytes);
        let e = spec_format_pieces(bytes.subrange(0, 0), c1, args, style);
        assert(e =~= Seq::<(Seq<u8>, I18nStyle)>::empty());
        assert(e + spec_format_pieces(bytes, c2, args, style) =~= spec_format_pieces(bytes, c2, args, style));
    } else {
        let off = c1[0].0 as int;
        let c1r = c1.drop_first();
        let pr = offsets_total(c1r) as int;
        assert(p == off + pr);
        let rest = bytes.subrange(off, bytes.len() as int);
        let next_style = match c1[0].1 {
            I18nFormatCtxView::Style(ns) => ns,
            I18nFormatCtxView::Argument(_) => style,
        };
        lemma_style_after_first(c1, style);
        law_format_pieces_split(rest, c1r, c2, args, next_style);
        assert((c1 + c2)[0] == c1[0]);
        assert((c1 + c2).drop_first() =~= c1r + c2);
        let pre = bytes.subrange(0, p);
        assert(pre.len() == p);
        assert(pre.subrange(0, off) =~= bytes.subrange(0, off));
        assert(pre.subrange(off, pre.len() as int) =~= rest.subrange(0, pr));
        assert(rest.subrange(pr, rest.len() as int) =~= bytes.subrange(p, bytes.len() as int));
        let head = if off > 0 {
            seq![(bytes.subrange(0, off), style)]
        } else {
            seq![]
        };
        let a = spec_format_pieces(rest.subrange(0, pr), c1r, args, next_style);
        let b = spec_format_pieces(rest.subrange(pr, rest.len() as int), c2, args, style_after(c1r, next_style));
        match c1[0].1 {
            I18nFormatCtxView::Style(ns) => {
                assert(head + (a + b) =~= (head + a) + b);
            },
            I18nFormatCtxView::Argument(name) => {
                let v = match lookup_argument(args, name) {
                    Some(v) => seq![(encode_utf8(v), style)],
                    None => seq![],
                };
                assert(head + v + (a + b) =~= (head + v + a) + b);
            },
        }
    }
}

} // verus!
