//! The line protocol: its grammar, the instructions it carries, their effect on
//! a content, and the framing of a byte stream into commands.
use vstd::prelude::*;
use vstd::slice::slice_subrange;
use vstd::string::StringExecFns;
use vstd::utf8::{decode_utf8, valid_utf8};
use crate::contents::{blank_text, Content, ContentModel, Page, PageModel};

verus! {

pub const SP_PAGE: u8 = 0x40;  // '@'
pub const SP_LINE: u8 = 0x3a;  // ':'
pub const OP_DATA: u8 = 0x2b;  // '+'
pub const SP_SIZE: u8 = 0x2c;  // ','
pub const OP_STRING: u8 = 0x2b;  // '+'
pub const OP_BASE64: u8 = 0x3a;  // ':'
pub const OP_DELETE: u8 = 0x7e;  // '~'
pub const OP_QUERY: u8 = 0x3f;  // '?'
pub const CR: u8 = 0x0d;
pub const LF: u8 = 0x0a;

// ----- outside calls -----

/// The text that `String::from_utf8_lossy` makes of a byte sequence.
pub uninterp spec fn lossy_text(b: Seq<u8>) -> Seq<char>;

/// The bytes that `base64::decode` (standard alphabet, padded) makes of an
/// input, or `None` where it reports a decode error.
pub uninterp spec fn base64_decoded(b: Seq<u8>) -> Option<Seq<u8>>;

/// `base64::DecodeError`, carried unread inside `ParseError::InvalidBase64`.
#[verifier::external_type_specification]
#[verifier::external_body]
pub struct ExDecodeError(base64::DecodeError);

/// Relies on `String::from_utf8_lossy`: the text depends on the bytes alone, and
/// valid UTF-8 is decoded unchanged.
#[verifier::external_body]
fn text_from_bytes(b: &[u8]) -> (r: String)
    ensures
        r@ == lossy_text(b@),
        valid_utf8(b@) ==> r@ == decode_utf8(b@),
{
    String::from_utf8_lossy(b).into_owned()
}

/// Relies on `base64::decode`: decoded bytes on success, a `DecodeError` otherwise.
/// Its length arithmetic (`len + 7` and `len + 3`, checked) panics only within
/// seven bytes of `usize::MAX`.
#[verifier::external_body]
fn decode_base64(b: &[u8]) -> (r: Result<Vec<u8>, base64::DecodeError>)
    requires
        b@.len() + 8 <= usize::MAX,
    ensures
        match r {
            Ok(v) => base64_decoded(b@) == Some(v@),
            Err(_) => base64_decoded(b@).is_none(),
        },
{
    base64::decode(b)
}

// ----- instructions -----

/// What a parsed instruction holds, as mathematical values.
pub enum OpModel {
    Pass,
    RSetText(Seq<char>),
    SetText { page: usize, line: usize, text: Seq<char> },
    DeleteText { page: usize, line: usize },
    QueryText { page: usize, line: usize },
    SetPage { page: usize, data: Seq<u8>, width: u32, height: u32 },
    DeletePage { page: usize },
    QueryPage { page: usize },
}

#[derive(Debug)]
pub enum Operation {
    Pass,
    RSetText(String),
    SetText { page: usize, line: usize, text: String },
    DeleteText { page: usize, line: usize },
    QueryText { page: usize, line: usize },
    SetPage { page: usize, data: Vec<u8>, width: u32, height: u32 },
    DeletePage { page: usize },
    QueryPage { page: usize },
}

impl View for Operation {
    type V = OpModel;

    open spec fn view(&self) -> OpModel {
        match self {
            Operation::Pass => OpModel::Pass,
            Operation::RSetText(t) => OpModel::RSetText(t@),
            Operation::SetText { page, line, text } => OpModel::SetText { page: *page, line: *line, text: text@ },
            Operation::DeleteText { page, line } => OpModel::DeleteText { page: *page, line: *line },
            Operation::QueryText { page, line } => OpModel::QueryText { page: *page, line: *line },
            Operation::SetPage { page, data, width, height } => OpModel::SetPage {
                page: *page,
                data: data@,
                width: *width,
                height: *height,
            },
            Operation::DeletePage { page } => OpModel::DeletePage { page: *page },
            Operation::QueryPage { page } => OpModel::QueryPage { page: *page },
        }
    }
}

// ----- errors -----

/// A parse error without the outside decoder's detail.
pub enum ParseErrorModel {
    InvalidLine,
    UnexpectedEnd(usize),
    InvalidData(usize),
    InvalidToken(usize),
    InvalidBase64(usize),
}

#[derive(Debug)]
pub enum ParseError {
    InvalidLine,
    UnexpectedEnd(usize),
    InvalidData(usize),
    InvalidToken(usize),
    InvalidBase64(usize, base64::DecodeError),
}

impl View for ParseError {
    type V = ParseErrorModel;

    open spec fn view(&self) -> ParseErrorModel {
        match self {
            ParseError::InvalidLine => ParseErrorModel::InvalidLine,
            ParseError::UnexpectedEnd(i) => ParseErrorModel::UnexpectedEnd(*i),
            ParseError::InvalidData(i) => ParseErrorModel::InvalidData(*i),
            ParseError::InvalidToken(i) => ParseErrorModel::InvalidToken(*i),
            ParseError::InvalidBase64(i, _) => ParseErrorModel::InvalidBase64(*i),
        }
    }
}

#[derive(Debug, Clone, Copy, PartialEq, Eq, Structural)]
pub enum OperationError {
    Invalid,
    PageOutOfBound(usize, usize),
    LineOutOfPage(usize, usize),
}

// ----- grammar -----

pub open spec fn is_digit(b: u8) -> bool {
    0x30 <= b <= 0x39
}

/// Number of consecutive digits starting at `i`.
pub open spec fn digits_len(d: Seq<u8>, i: int) -> nat
    decreases d.len() - i,
{
    if 0 <= i < d.len() && is_digit(d[i]) {
        1 + digits_len(d, i + 1)
    } else {
        0
    }
}

/// The value of a run of decimal digits.
pub open spec fn uint_value(d: Seq<u8>) -> nat
    decreases d.len(),
{
    if d.len() == 0 {
        0
    } else {
        10 * uint_value(d.drop_last()) + (d.last() - 0x30) as nat
    }
}

/// The number written at `i`, with the index after its digits; an error at `i`
/// where no digit stands there or the value exceeds `max`.
pub open spec fn number_at(d: Seq<u8>, i: int, max: nat) -> Result<(nat, int), ParseErrorModel> {
    let c = digits_len(d, i);
    let v = uint_value(d.subrange(i, i + c));
    if c == 0 || v > max {
        Err(ParseErrorModel::InvalidData(i as usize))
    } else {
        Ok((v, i + c))
    }
}

/// The text from `i` up to the closing delimiter.
pub open spec fn text_from(d: Seq<u8>, i: int) -> Seq<char> {
    lossy_text(d.subrange(i, d.len() - 2))
}

/// What follows `@<page>:`, starting at `i`.
pub open spec fn parse_line_op(d: Seq<u8>, page: usize, i: int) -> Result<OpModel, ParseErrorModel> {
    match number_at(d, i, usize::MAX as nat) {
        Err(e) => Err(e),
        Ok((line, j)) => {
            let line = line as usize;
            if d[j] == OP_STRING {
                Ok(OpModel::SetText { page, line, text: text_from(d, j + 1) })
            } else if d[j] == OP_DELETE {
                Ok(OpModel::DeleteText { page, line })
            } else if d[j] == OP_QUERY {
                Ok(OpModel::QueryText { page, line })
            } else {
                Err(ParseErrorModel::InvalidToken(j as usize))
            }
        },
    }
}

/// What follows `@<page>+`, starting at `i`: `<width>,<height>:<base64>`.
pub open spec fn parse_bitmap(d: Seq<u8>, page: usize, i: int) -> Result<OpModel, ParseErrorModel> {
    match number_at(d, i, u32::MAX as nat) {
        Err(e) => Err(e),
        Ok((w, j)) => if d[j] != SP_SIZE {
            Err(ParseErrorModel::InvalidToken(j as usize))
        } else {
            match number_at(d, j + 1, u32::MAX as nat) {
                Err(e) => Err(e),
                Ok((h, k)) => if d[k] != OP_BASE64 {
                    Err(ParseErrorModel::InvalidToken(k as usize))
                } else {
                    match base64_decoded(d.subrange(k + 1, d.len() - 2)) {
                        None => Err(ParseErrorModel::InvalidBase64((k + 1) as usize)),
                        Some(data) => Ok(OpModel::SetPage { page, data, width: w as u32, height: h as u32 }),
                    }
                },
            }
        },
    }
}

/// The instruction that one command (delimiter included) stands for, or where
/// and why the grammar fails on it.
pub open spec fn parse_spec(d: Seq<u8>) -> Result<OpModel, ParseErrorModel> {
    let n = d.len();
    if n < 2 || d[n - 2] != CR || d[n - 1] != LF {
        Err(ParseErrorModel::InvalidLine)
    } else if n == 2 {
        Ok(OpModel::Pass)
    } else if d[0] != SP_PAGE {
        Ok(OpModel::RSetText(text_from(d, 0)))
    } else {
        match number_at(d, 1, usize::MAX as nat) {
            Err(e) => Err(e),
            Ok((page, i)) => {
                let page = page as usize;
                if d[i] == SP_LINE {
                    parse_line_op(d, page, i + 1)
                } else if d[i] == OP_DATA {
                    parse_bitmap(d, page, i + 1)
                } else if d[i] == OP_DELETE {
                    Ok(OpModel::DeletePage { page })
                } else if d[i] == OP_QUERY {
                    Ok(OpModel::QueryPage { page })
                } else {
                    Err(ParseErrorModel::InvalidToken(i as usize))
                }
            },
        }
    }
}

impl ParseErrorModel {
    /// The byte offset at which the grammar failed, where there is one.
    pub open spec fn offset(self) -> Option<usize> {
        match self {
            ParseErrorModel::InvalidLine => None,
            ParseErrorModel::UnexpectedEnd(i) => Some(i),
            ParseErrorModel::InvalidData(i) => Some(i),
            ParseErrorModel::InvalidToken(i) => Some(i),
            ParseErrorModel::InvalidBase64(i) => Some(i),
        }
    }
}

proof fn lemma_digits_stop(d: Seq<u8>, i: int)
    requires
        2 <= d.len(),
        0 <= i <= d.len() - 2,
        d[d.len() - 2] == CR,
    ensures
        i + digits_len(d, i) <= d.len() - 2,
    decreases d.len() - i,
{
    if i < d.len() - 2 && is_digit(d[i]) {
        lemma_digits_stop(d, i + 1);
    }
}

/// Every delimited command parses to an instruction or to an error that names
/// a byte offset inside the command, before or at its delimiter.
pub proof fn lemma_parse_total(d: Seq<u8>)
    requires
        2 <= d.len(),
        d[d.len() - 2] == CR,
        d[d.len() - 1] == LF,
    ensures
        match parse_spec(d) {
            Ok(_) => true,
            Err(e) => e.offset().is_some() && e.offset().unwrap() <= d.len() - 2,
        },
{
    if d.len() > 2 && d[0] == SP_PAGE {
        lemma_digits_stop(d, 1);
        let i: int = 1 + digits_len(d, 1) as int;
        if i <= d.len() - 3 {
            lemma_digits_stop(d, i + 1);
            let j: int = i + 1 + digits_len(d, i + 1) as int;
            if j <= d.len() - 3 {
                lemma_digits_stop(d, j + 1);
            }
        }
    }
}

pub open spec fn parse_result_view(r: Result<Operation, ParseError>) -> Result<OpModel, ParseErrorModel> {
    match r {
        Ok(op) => Ok(op@),
        Err(e) => Err(e@),
    }
}

/// Reads the digits at `i`: their value and the index after them, or `None`
/// where there are none or the value exceeds `max`.
fn parse_uint(data: &[u8], i: usize, max: usize) -> (r: Option<(usize, usize)>)
    requires
        2 <= data@.len(),
        i <= data@.len() - 2,
        data@[data@.len() - 2] == CR,
    ensures
        match number_at(data@, i as int, max as nat) {
            Ok((v, j)) => r == Some((v as usize, j as usize)) && j <= data@.len() - 2,
            Err(_) => r.is_none(),
        },
{
    let n = data.len();
    let mut j: usize = i;
    let mut value: usize = 0;
    let mut over: bool = false;
    while j < n && 0x30 <= data[j] && data[j] <= 0x39
        invariant
            n == data@.len(),
            i <= j <= n - 2,
            data@[n - 2] == CR,
            digits_len(data@, i as int) == (j - i) + digits_len(data@, j as int),
            !over ==> value as nat == uint_value(data@.subrange(i as int, j as int)) && value <= max,
            over ==> uint_value(data@.subrange(i as int, j as int)) > max,
        decreases n - j,
    {
        let dv: usize = (data[j] - 0x30) as usize;
        proof {
            let s = data@.subrange(i as int, j as int + 1);
            assert(s.drop_last() =~= data@.subrange(i as int, j as int));
            assert(s.last() == data@[j as int]);
            assert(uint_value(s) == 10 * uint_value(data@.subrange(i as int, j as int)) + dv);
        }
        if !over {
            match value.checked_mul(10) {
                Some(v10) => match v10.checked_add(dv) {
                    Some(v) => {
                        if v > max {
                            over = true;
                        } else {
                            value = v;
                        }
                    },
                    None => {
                        over = true;
                    },
                },
                None => {
                    over = true;
                },
            }
        }
        j = j + 1;
    }
    if over || j == i {
        None
    } else {
        Some((value, j))
    }
}

impl Operation {
    /// Parses one command, delimiter included.
    pub fn new(buf: &[u8]) -> (r: Result<Operation, ParseError>)
        ensures
            parse_result_view(r) == parse_spec(buf@),
    {
        let data = buf;
        let n = data.len();
        if n < 2 {
            return Err(ParseError::InvalidLine);
        }
        if data[n - 2] != CR || data[n - 1] != LF {
            return Err(ParseError::InvalidLine);
        }
        if n == 2 {
            return Ok(Operation::Pass);
        }
        if data[0] != SP_PAGE {
            let text = text_from_bytes(slice_subrange(data, 0, n - 2));
            return Ok(Operation::RSetText(text));
        }
        let (page, i) = match parse_uint(data, 1, usize::MAX) {
            Some(p) => p,
            None => {
                return Err(ParseError::InvalidData(1));
            },
        };
        let c = data[i];
        if c == SP_LINE {
            let (line, j) = match parse_uint(data, i + 1, usize::MAX) {
                Some(p) => p,
                None => {
                    return Err(ParseError::InvalidData(i + 1));
                },
            };
            let c = data[j];
            if c == OP_STRING {
                let text = text_from_bytes(slice_subrange(data, j + 1, n - 2));
                Ok(Operation::SetText { page, line, text })
            } else if c == OP_DELETE {
                Ok(Operation::DeleteText { page, line })
            } else if c == OP_QUERY {
                Ok(Operation::QueryText { page, line })
            } else {
                Err(ParseError::InvalidToken(j))
            }
        } else if c == OP_DATA {
            let (width, j) = match parse_uint(data, i + 1, 0xffff_ffff) {
                Some(p) => p,
                None => {
                    return Err(ParseError::InvalidData(i + 1));
                },
            };
            if data[j] != SP_SIZE {
                return Err(ParseError::InvalidToken(j));
            }
            let (height, k) = match parse_uint(data, j + 1, 0xffff_ffff) {
                Some(p) => p,
                None => {
                    return Err(ParseError::InvalidData(j + 1));
                },
            };
            if data[k] != OP_BASE64 {
                return Err(ParseError::InvalidToken(k));
            }
            match decode_base64(slice_subrange(data, k + 1, n - 2)) {
                Ok(bytes) => Ok(Operation::SetPage { page, data: bytes, width: width as u32, height: height as u32 }),
                Err(e) => Err(ParseError::InvalidBase64(k + 1, e)),
            }
        } else if c == OP_DELETE {
            Ok(Operation::DeletePage { page })
        } else if c == OP_QUERY {
            Ok(Operation::QueryPage { page })
        } else {
            Err(ParseError::InvalidToken(i))
        }
    }
}

// ----- effect on a content -----

/// A page after line `line` was set to `text`: only an existing line of a text
/// page is replaced.
pub open spec fn page_with_line(p: PageModel, line: usize, text: Seq<char>) -> PageModel {
    if p is Text && line < p.lines().len() {
        PageModel::Text(p.lines().update(line as int, text))
    } else {
        p
    }
}

/// Setting a line: refused past the line limit or past the end of the content;
/// at the end, a blank text page is appended first.
pub open spec fn set_text_spec(c: ContentModel, page: usize, line: usize, text: Seq<char>) -> (
    Result<Option<Seq<char>>, OperationError>,
    ContentModel,
) {
    let len = c.pages.len();
    if line >= c.line_limit {
        (Err(OperationError::LineOutOfPage(line, c.line_limit as usize)), c)
    } else if page > len {
        (Err(OperationError::PageOutOfBound(page, len as usize)), c)
    } else {
        let base = if page == len {
            c.pages.push(blank_text(c.line_limit))
        } else {
            c.pages
        };
        let pages = base.update(page as int, page_with_line(base[page as int], line, text));
        (Ok(None), ContentModel { pages, line_limit: c.line_limit })
    }
}

/// The effect of one instruction: its result (a query's text, or nothing) or
/// its error, and the content after it.
pub open spec fn apply_spec(op: OpModel, c: ContentModel) -> (Result<Option<Seq<char>>, OperationError>, ContentModel) {
    let len = c.pages.len();
    match op {
        OpModel::Pass => (Ok(None), c),
        OpModel::SetText { page, line, text } => set_text_spec(c, page, line, text),
        OpModel::RSetText(text) => set_text_spec(c, 0, 0, text),
        OpModel::DeleteText { page, line } => if page >= len {
            (Err(OperationError::PageOutOfBound(page, len as usize)), c)
        } else {
            let p = c.pages[page as int];
            if p is Text && line < p.lines().len() {
                let pages = c.pages.update(page as int, PageModel::Text(p.lines().remove(line as int)));
                (Ok(None), ContentModel { pages, line_limit: c.line_limit })
            } else {
                (Err(OperationError::LineOutOfPage(line, p.lines().len() as usize)), c)
            }
        },
        OpModel::QueryText { page, line } => if page >= len {
            (Err(OperationError::PageOutOfBound(page, len as usize)), c)
        } else {
            let p = c.pages[page as int];
            if p is Text && line < p.lines().len() {
                (Ok(Some(p.lines()[line as int])), c)
            } else {
                (Err(OperationError::LineOutOfPage(line, p.lines().len() as usize)), c)
            }
        },
        OpModel::DeletePage { page } => if page < len {
            (Ok(None), ContentModel { pages: c.pages.remove(page as int), line_limit: c.line_limit })
        } else {
            (Err(OperationError::PageOutOfBound(page, len as usize)), c)
        },
        OpModel::SetPage { .. } => (Err(OperationError::Invalid), c),
        OpModel::QueryPage { .. } => (Err(OperationError::Invalid), c),
    }
}

/// Setting a line and then querying it gives the text back: wherever the
/// line is within the line limit and the page is either the next one to append
/// or an existing text page that still holds that line.
pub proof fn lemma_set_then_query(c: ContentModel, page: usize, line: usize, text: Seq<char>)
    requires
        line < c.line_limit,
        page <= c.pages.len(),
        page < c.pages.len() ==> c.pages[page as int] is Text && line < c.pages[page as int].lines().len(),
    ensures
        apply_spec(OpModel::SetText { page, line, text }, c).0 == Ok::<Option<Seq<char>>, OperationError>(None),
        apply_spec(
            OpModel::QueryText { page, line },
            apply_spec(OpModel::SetText { page, line, text }, c).1,
        ).0 == Ok::<Option<Seq<char>>, OperationError>(Some(text)),
{
}

/// The result of an instruction: nothing, or the text that a query found.
pub enum QueryData<'a> {
    Nothing,
    Text(&'a str),
}

impl<'a> View for QueryData<'a> {
    type V = Option<Seq<char>>;

    open spec fn view(&self) -> Option<Seq<char>> {
        match self {
            QueryData::Nothing => None,
            QueryData::Text(s) => Some(s@),
        }
    }
}

impl<'a> QueryData<'a> {
    /// The text of a query; empty for anything else.
    pub fn get_text(&'a self) -> (r: &'a str)
        ensures
            r@ == match self@ {
                Some(t) => t,
                None => Seq::<char>::empty(),
            },
    {
        match self {
            QueryData::Text(s) => s,
            QueryData::Nothing => {
                proof {
                    reveal_strlit("");
                }
                ""
            },
        }
    }
}

pub open spec fn query_result_view(r: Result<QueryData, OperationError>) -> Result<Option<Seq<char>>, OperationError> {
    match r {
        Ok(q) => Ok(q@),
        Err(e) => Err(e),
    }
}

impl Operation {
    /// Applies this instruction to `content`.
    pub fn modify<'a>(self, content: &'a mut Content) -> (r: Result<QueryData<'a>, OperationError>)
        ensures
            (query_result_view(r), final(content)@) == apply_spec(self@, old(content)@),
    {
        match self {
            Operation::Pass => Ok(QueryData::Nothing),
            Operation::SetText { page, line, text } => Self::set_line(content, page, line, text),
            Operation::RSetText(text) => Self::set_line(content, 0, 0, text),
            Operation::DeleteText { page, line } => {
                let len = content.len();
                match content.get_mut(page) {
                    Some(p) => {
                        if p.remove_text(line) {
                            Ok(QueryData::Nothing)
                        } else {
                            proof {
                                let b = old(content)@.pages;
                                assert(b.update(page as int, b[page as int]) =~= b);
                            }
                            Err(OperationError::LineOutOfPage(line, p.line_num()))
                        }
                    },
                    None => Err(OperationError::PageOutOfBound(page, len)),
                }
            },
            Operation::QueryText { page, line } => {
                let c: &'a Content = content;
                match c.get(page) {
                    Some(p) => match p.get_text(line) {
                        Some(s) => Ok(QueryData::Text(s)),
                        None => Err(OperationError::LineOutOfPage(line, p.line_num())),
                    },
                    None => Err(OperationError::PageOutOfBound(page, c.len())),
                }
            },
            Operation::SetPage { .. } => Err(OperationError::Invalid),
            Operation::DeletePage { page } => {
                match content.remove(page) {
                    Some(_) => Ok(QueryData::Nothing),
                    None => Err(OperationError::PageOutOfBound(page, content.len())),
                }
            },
            Operation::QueryPage { .. } => Err(OperationError::Invalid),
        }
    }

    fn set_line<'a>(content: &mut Content, page: usize, line: usize, text: String) -> (r: Result<QueryData<'a>, OperationError>)
        ensures
            (query_result_view(r), final(content)@) == set_text_spec(old(content)@, page, line, text@),
    {
        let line_limit = content.line_limit();
        if line >= line_limit {
            return Err(OperationError::LineOutOfPage(line, line_limit));
        }
        let len = content.len();
        let generate = || -> (p: Page)
            ensures
                p@ == blank_text(line_limit as nat),
            { Page::new_text(line_limit) };
        match content.get_mut_or_add(page, generate) {
            Some(p) => {
                p.set_text(line, text);
                proof {
                    let b = old(content)@.pages;
                    if page == len {
                        assert(b.push(blank_text(line_limit as nat)).update(page as int, (*p)@) =~= b.push((*p)@));
                    }
                }
                Ok(QueryData::Nothing)
            },
            None => Err(OperationError::PageOutOfBound(page, len)),
        }
    }
}

// ----- descriptions -----

pub open spec fn digit_chars() -> Seq<char> {
    seq!['0', '1', '2', '3', '4', '5', '6', '7', '8', '9']
}

/// The decimal digits of `n`, most significant first.
pub open spec fn decimal(n: nat) -> Seq<char>
    decreases n,
{
    if n < 10 {
        seq![digit_chars()[n as int]]
    } else {
        decimal(n / 10) + seq![digit_chars()[(n % 10) as int]]
    }
}

fn digit_str(d: usize) -> (r: &'static str)
    requires
        d < 10,
    ensures
        r@ == seq![digit_chars()[d as int]],
{
    proof {
        reveal_strlit("0");
        reveal_strlit("1");
        reveal_strlit("2");
        reveal_strlit("3");
        reveal_strlit("4");
        reveal_strlit("5");
        reveal_strlit("6");
        reveal_strlit("7");
        reveal_strlit("8");
        reveal_strlit("9");
    }
    let r = match d {
        0 => "0",
        1 => "1",
        2 => "2",
        3 => "3",
        4 => "4",
        5 => "5",
        6 => "6",
        7 => "7",
        8 => "8",
        _ => "9",
    };
    assert(r@ =~= seq![digit_chars()[d as int]]);
    r
}

/// Appends the decimal digits of `n`.
fn append_decimal(out: &mut String, n: usize)
    ensures
        final(out)@ == old(out)@ + decimal(n as nat),
    decreases n,
{
    if n >= 10 {
        append_decimal(out, n / 10);
    }
    out.append(digit_str(n % 10));
    assert(final(out)@ =~= old(out)@ + decimal(n as nat));
}

impl OperationError {
    /// The text that a response line carries for this error.
    pub open spec fn description(self) -> Seq<char> {
        match self {
            OperationError::Invalid => "Invalid"@,
            OperationError::PageOutOfBound(i, n) => "PageOutOfBound:"@ + decimal(i as nat) + "@"@ + decimal(n as nat),
            OperationError::LineOutOfPage(i, n) => "LineOutOfPage:"@ + decimal(i as nat) + "@"@ + decimal(n as nat),
        }
    }

    pub(crate) fn append_description(&self, out: &mut String)
        ensures
            final(out)@ == old(out)@ + self.description(),
    {
        match self {
            OperationError::Invalid => out.append("Invalid"),
            OperationError::PageOutOfBound(i, n) => {
                out.append("PageOutOfBound:");
                append_decimal(out, *i);
                out.append("@");
                append_decimal(out, *n);
            },
            OperationError::LineOutOfPage(i, n) => {
                out.append("LineOutOfPage:");
                append_decimal(out, *i);
                out.append("@");
                append_decimal(out, *n);
            },
        }
        assert(final(out)@ =~= old(out)@ + self.description());
    }

    /// This error as text, such as `PageOutOfBound:5@0`.
    pub fn to_text(&self) -> (r: String)
        ensures
            r@ == self.description(),
    {
        let mut out = String::new();
        self.append_description(&mut out);
        assert(out@ =~= self.description());
        out
    }
}

impl ParseErrorModel {
    /// The text that a response line carries for this error.
    pub open spec fn description(self) -> Seq<char> {
        match self {
            ParseErrorModel::InvalidLine => "InvalidLine"@,
            ParseErrorModel::UnexpectedEnd(i) => "UnexpectedEnd("@ + decimal(i as nat) + ")"@,
            ParseErrorModel::InvalidData(i) => "InvalidData("@ + decimal(i as nat) + ")"@,
            ParseErrorModel::InvalidToken(i) => "InvalidToken("@ + decimal(i as nat) + ")"@,
            ParseErrorModel::InvalidBase64(i) => "InvalidBase64("@ + decimal(i as nat) + ")"@,
        }
    }
}

impl ParseError {
    pub(crate) fn append_description(&self, out: &mut String)
        ensures
            final(out)@ == old(out)@ + self@.description(),
    {
        let i = match self {
            ParseError::InvalidLine => {
                out.append("InvalidLine");
                return;
            },
            ParseError::UnexpectedEnd(i) => {
                out.append("UnexpectedEnd(");
                *i
            },
            ParseError::InvalidData(i) => {
                out.append("InvalidData(");
                *i
            },
            ParseError::InvalidToken(i) => {
                out.append("InvalidToken(");
                *i
            },
            ParseError::InvalidBase64(i, _) => {
                out.append("InvalidBase64(");
                *i
            },
        };
        append_decimal(out, i);
        out.append(")");
        assert(final(out)@ =~= old(out)@ + self@.description());
    }

    /// This error as text, such as `InvalidToken(3)`.
    pub fn to_text(&self) -> (r: String)
        ensures
            r@ == self@.description(),
    {
        let mut out = String::new();
        self.append_description(&mut out);
        assert(out@ =~= self@.description());
        out
    }
}

// ----- framing -----

/// A delimiter `CR LF` starts at `k`.
pub open spec fn crlf_at(d: Seq<u8>, k: int) -> bool {
    0 <= k && k + 1 < d.len() && d[k] == CR && d[k + 1] == LF
}

/// No delimiter starts at or after `s`.
pub open spec fn no_crlf_from(d: Seq<u8>, s: int) -> bool {
    forall|k: int| s <= k ==> !#[trigger] crlf_at(d, k)
}

/// A complete command: bytes that end with the delimiter and hold no earlier one.
pub open spec fn is_command(c: Seq<u8>) -> bool {
    &&& c.len() >= 2
    &&& crlf_at(c, c.len() - 2)
    &&& forall|k: int| 0 <= k < c.len() - 2 ==> !#[trigger] crlf_at(c, k)
}

/// `cmds`, in order, are complete commands that together make up the first
/// `end` bytes of `d`.
pub open spec fn framed(d: Seq<u8>, cmds: Seq<Seq<u8>>, end: int) -> bool
    decreases cmds.len(),
{
    if cmds.len() == 0 {
        end == 0
    } else {
        let c = cmds.last();
        let start = end - c.len();
        &&& 0 <= start
        &&& end <= d.len()
        &&& d.subrange(start, end) == c
        &&& is_command(c)
        &&& framed(d, cmds.drop_last(), start)
    }
}

proof fn lemma_framed_end(d: Seq<u8>, cmds: Seq<Seq<u8>>, end: int)
    requires
        framed(d, cmds, end),
    ensures
        0 <= end <= d.len(),
        (cmds.len() == 0) == (end == 0),
        end > 0 ==> end >= 2 && crlf_at(d, end - 2),
{
    if cmds.len() > 0 {
        let c = cmds.last();
        let start = end - c.len();
        assert(crlf_at(c, c.len() - 2));
        assert(c[c.len() - 2] == d[end - 2] && c[c.len() - 1] == d[end - 1]);
    }
}

/// The commands of a framing that leaves no delimiter unread are determined
/// by the bytes: any two such framings of the same bytes are the same, so the
/// framer yields exactly the complete commands present, and no complete
/// command remains after them.
pub proof fn lemma_framing_unique(d: Seq<u8>, a: Seq<Seq<u8>>, ea: int, b: Seq<Seq<u8>>, eb: int)
    requires
        framed(d, a, ea),
        no_crlf_from(d, ea),
        framed(d, b, eb),
        no_crlf_from(d, eb),
    ensures
        a == b,
        ea == eb,
{
    lemma_framed_end(d, a, ea);
    lemma_framed_end(d, b, eb);
    if ea < eb {
        assert(!crlf_at(d, eb - 2));
    } else if eb < ea {
        assert(!crlf_at(d, ea - 2));
    }
    lemma_framing_same_end(d, a, b, ea);
}

proof fn lemma_framing_same_end(d: Seq<u8>, a: Seq<Seq<u8>>, b: Seq<Seq<u8>>, e: int)
    ensures
        framed(d, a, e) && framed(d, b, e) ==> a == b,
    decreases a.len(),
{
    if framed(d, a, e) && framed(d, b, e) {
        lemma_framed_end(d, a, e);
        lemma_framed_end(d, b, e);
        if e == 0 {
            assert(a =~= b);
        } else {
            let ca = a.last();
            let cb = b.last();
            let sa = e - ca.len();
            let sb = e - cb.len();
            lemma_framed_end(d, a.drop_last(), sa);
            lemma_framed_end(d, b.drop_last(), sb);
            if sa < sb {
                assert(crlf_at(d, sb - 2));
                if sb - 2 < sa {
                    assert(d[sa - 1] == LF);
                } else {
                    assert(crlf_at(ca, sb - 2 - sa));
                }
            } else if sb < sa {
                assert(crlf_at(d, sa - 2));
                if sa - 2 < sb {
                    assert(d[sb - 1] == LF);
                } else {
                    assert(crlf_at(cb, sa - 2 - sb));
                }
            }
            lemma_framing_same_end(d, a.drop_last(), b.drop_last(), sa);
            assert(a =~= a.drop_last().push(ca));
            assert(b =~= b.drop_last().push(cb));
        }
    }
}

/// Scans a byte range for complete commands, without copying. The scan
/// position only moves past whole commands.
pub struct CommandSplit<'a> {
    data: &'a [u8],
    index: usize,
}

impl<'a> CommandSplit<'a> {
    pub closed spec fn data(&self) -> Seq<u8> {
        self.data@
    }

    /// Where the next command would start: the bytes consumed so far.
    pub closed spec fn position(&self) -> nat {
        self.index as nat
    }

    /// Starts scanning `data` at `index`.
    pub fn new(data: &'a [u8], index: usize) -> (r: Self)
        ensures
            r.data() == data@,
            r.position() == index,
    {
        CommandSplit { data, index }
    }

    /// The bytes consumed so far.
    pub fn index(&self) -> (r: usize)
        ensures
            r == self.position(),
    {
        self.index
    }

    /// The next complete command: the bytes from the scan position up to and
    /// including the first delimiter after it. `None`, moving nothing, where no
    /// delimiter is left.
    pub fn next(&mut self) -> (r: Option<&'a [u8]>)
        ensures
            final(self).data() == old(self).data(),
            match r {
                Some(c) => {
                    &&& old(self).position() < final(self).position() <= old(self).data().len()
                    &&& c@ == old(self).data().subrange(old(self).position() as int, final(self).position() as int)
                    &&& is_command(c@)
                },
                None => {
                    &&& final(self).position() == old(self).position()
                    &&& no_crlf_from(old(self).data(), old(self).position() as int)
                },
            },
    {
        let data = self.data;
        let start = self.index;
        let n = data.len();
        let mut i: usize = start;
        let mut found = false;
        while !found && i < n && n - i >= 2
            invariant
                n == data@.len(),
                start <= i,
                found ==> i + 1 < n && crlf_at(data@, i as int),
                forall|k: int| start <= k < i ==> !#[trigger] crlf_at(data@, k),
            decreases n - i + (if found { 0int } else { 1int }),
        {
            if data[i] == CR && data[i + 1] == LF {
                found = true;
            } else {
                i = i + 1;
            }
        }
        if !found {
            assert forall|k: int| start <= k implies !#[trigger] crlf_at(data@, k) by {
                if k >= i {
                    assert(!(k + 1 < n));
                }
            }
            return None;
        }
        let j = i + 2;
        self.index = j;
        let c = slice_subrange(data, start, j);
        proof {
            assert forall|k: int| 0 <= k < c@.len() - 2 implies !#[trigger] crlf_at(c@, k) by {
                assert(!crlf_at(data@, start + k));
            }
            assert(crlf_at(c@, c@.len() - 2));
        }
        Some(c)
    }
}

} // verus!
