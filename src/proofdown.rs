//! The front-page markup: headings, paragraphs and named components with
//! attributes and children.

use vstd::prelude::*;
use crate::text::{back_white_space, back_ws, chars_of, is_white_space, is_ws, skip_white_space, skip_ws, string_of, trim_text};

verus! {

/// A parsed front page.
#[derive(Debug, PartialEq)]
pub struct Document {
    pub blocks: Vec<Block>,
}

/// One block of a front page.
#[derive(Debug, PartialEq)]
pub enum Block {
    Heading { level: u8, text: String },
    Component(Component),
    Paragraph(String),
}

/// A component such as `<grid cols=3> ... </grid>` or `<artifact.summary id="x" />`.
#[derive(Debug, PartialEq)]
pub struct Component {
    pub name: String,
    pub attrs: Vec<Attr>,
    pub children: Vec<Block>,
    pub self_closing: bool,
}

/// An attribute `key=value` or `key="value"` of a component.
#[derive(Debug, PartialEq)]
pub struct Attr {
    pub key: String,
    pub value: String,
}


/// Why front-page markup could not be read.
#[derive(PartialEq, Eq, Structural, Clone, Copy, Debug)]
pub enum ParseError {
    /// A `<` with no `>` after it.
    UnterminatedTag,
    /// A tag with no name.
    MissingName,
    /// A component whose closing tag never comes.
    UnterminatedComponent,
    /// An attribute value opened with `"` and never closed.
    UnterminatedQuote,
}

/// The model of a [`Block`].
pub enum BlockModel {
    Heading { level: u8, text: Seq<char> },
    Component(ComponentModel),
    Paragraph(Seq<char>),
}

/// The model of a [`Component`].
pub struct ComponentModel {
    pub name: Seq<char>,
    pub attrs: Seq<(Seq<char>, Seq<char>)>,
    pub children: Seq<BlockModel>,
    pub self_closing: bool,
}

/// The attributes as key and value pairs.
pub open spec fn attrs_view(v: Seq<Attr>) -> Seq<(Seq<char>, Seq<char>)> {
    v.map_values(|a: Attr| (a.key@, a.value@))
}

/// The model of a block.
pub open spec fn block_view(b: &Block) -> BlockModel
    decreases b,
{
    match b {
        Block::Heading { level, text } => BlockModel::Heading { level: *level, text: text@ },
        Block::Component(c) => BlockModel::Component(component_view(c)),
        Block::Paragraph(t) => BlockModel::Paragraph(t@),
    }
}

/// The model of a component.
pub open spec fn component_view(c: &Component) -> ComponentModel
    decreases c,
{
    ComponentModel {
        name: c.name@,
        attrs: attrs_view(c.attrs@),
        children: blocks_view(c.children@),
        self_closing: c.self_closing,
    }
}

/// The models of a sequence of blocks.
pub open spec fn blocks_view(s: Seq<Block>) -> Seq<BlockModel>
    decreases s,
{
    if s.len() == 0 {
        Seq::empty()
    } else {
        blocks_view(s.drop_last()).push(block_view(&s.last()))
    }
}

/// The first index in `from..to` holding `c`, or `to`.
pub open spec fn find_char(s: Seq<char>, from: int, to: int, c: char) -> int
    decreases to - from,
{
    if from >= to {
        to
    } else if s[from] == c {
        from
    } else {
        find_char(s, from + 1, to, c)
    }
}

/// The first index in `from..to` holding white space, or `to`.
pub open spec fn find_ws(s: Seq<char>, from: int, to: int) -> int
    decreases to - from,
{
    if from >= to {
        to
    } else if is_ws(s[from]) {
        from
    } else {
        find_ws(s, from + 1, to)
    }
}

/// `to` moved back over the `/` characters that end `from..to`.
pub open spec fn back_slashes(s: Seq<char>, from: int, to: int) -> int
    decreases to - from,
{
    if from < to && s[to - 1] == '/' {
        back_slashes(s, from, to - 1)
    } else {
        to
    }
}

/// How many `#` (at most four) open `from..to`, counting from `n`.
pub open spec fn hashes(s: Seq<char>, from: int, to: int, n: int) -> int
    decreases 4 - n,
{
    if n < 4 && from + n < to && s[from + n] == '#' {
        hashes(s, from, to, n + 1)
    } else {
        n
    }
}

/// The first index at or after `i` that is neither `\n` nor `\r`.
pub open spec fn skip_newlines(s: Seq<char>, i: int) -> int
    decreases s.len() - i,
{
    if 0 <= i < s.len() && (s[i] == '\n' || s[i] == '\r') {
        skip_newlines(s, i + 1)
    } else {
        i
    }
}

/// The attributes in `p..e`, after those already in `acc`: `key=value` or
/// `key="value"`, separated by white space.
pub open spec fn attrs_from(s: Seq<char>, p: int, e: int, acc: Seq<(Seq<char>, Seq<char>)>) -> Result<
    Seq<(Seq<char>, Seq<char>)>,
    ParseError,
>
    decreases e - p,
{
    let eq = find_char(s, p, e, '=');
    if p >= e || eq >= e {
        Ok(acc)
    } else {
        let key = trim_text(s, p, eq);
        let q = eq + 1;
        if q < e && s[q] == '"' {
            let endq = find_char(s, q + 1, e, '"');
            let next = skip_ws(s, endq + 1, e);
            if endq >= e {
                Err(ParseError::UnterminatedQuote)
            } else if p < next <= e {
                attrs_from(s, next, e, acc.push((key, s.subrange(q + 1, endq))))
            } else {
                Ok(acc)
            }
        } else {
            let sp = find_char(s, q, e, ' ');
            let gt = find_char(s, q, e, '>');
            let end = if sp < gt {
                sp
            } else {
                gt
            };
            let ta = skip_ws(s, q, end);
            let value = s.subrange(ta, back_slashes(s, ta, back_ws(s, ta, end)));
            let next = skip_ws(s, end, e);
            if p < next <= e {
                attrs_from(s, next, e, acc.push((key, value)))
            } else {
                Ok(acc)
            }
        }
    }
}

/// The closing tag of a component named `name`.
pub open spec fn close_tag(name: Seq<char>) -> Seq<char> {
    seq!['<', '/'] + name + seq!['>']
}

/// The component whose tag opens at `start`, and the index just after it.
pub open spec fn component_at(s: Seq<char>, start: int) -> Result<(ComponentModel, int), ParseError>
    decreases s.len() - start, 0int,
{
    let close = find_char(s, start, s.len() as int, '>');
    if close < start || close >= s.len() {
        Err(ParseError::UnterminatedTag)
    } else {
        let ib = start + 1;
        let e = back_ws(s, ib, close);
        let self_close = e > ib && s[e - 1] == '/';
        let e2 = back_slashes(s, ib, close);
        let a = skip_ws(s, ib, e2);
        let b = back_ws(s, a, e2);
        if a >= b {
            Err(ParseError::MissingName)
        } else {
            let ne = find_ws(s, a, b);
            let name = s.subrange(a, ne);
            let ra = skip_ws(s, ne, b);
            match attrs_from(s, ra, back_ws(s, ra, b), seq![]) {
                Err(err) => Err(err),
                Ok(attrs) => if self_close {
                    Ok(
                        (
                            ComponentModel { name, attrs, children: seq![], self_closing: true },
                            close + 1,
                        ),
                    )
                } else {
                    match children_from(s, close + 1, name, seq![]) {
                        Err(err) => Err(err),
                        Ok((kids, end)) => Ok(
                            (
                                ComponentModel {
                                    name,
                                    attrs,
                                    children: kids,
                                    self_closing: false,
                                },
                                end,
                            ),
                        ),
                    }
                },
            }
        }
    }
}

/// The children of component `name` from `pos` on, after those in `acc`, up to
/// its closing tag, and the index just after that tag.
pub open spec fn children_from(s: Seq<char>, pos: int, name: Seq<char>, acc: Seq<BlockModel>) -> Result<
    (Seq<BlockModel>, int),
    ParseError,
>
    decreases s.len() - pos, 1int,
{
    let tag = close_tag(name);
    if pos < 0 || pos > s.len() {
        Err(ParseError::UnterminatedComponent)
    } else if pos + tag.len() <= s.len() && s.subrange(pos, pos + tag.len()) == tag {
        Ok((acc, pos + tag.len()))
    } else if pos == s.len() {
        Err(ParseError::UnterminatedComponent)
    } else if s[pos] == '\n' || s[pos] == '\r' {
        children_from(s, pos + 1, name, acc)
    } else if s[pos] == '<' {
        match component_at(s, pos) {
            Err(err) => Err(err),
            Ok((c, end)) => if pos < end <= s.len() {
                children_from(s, end, name, acc.push(BlockModel::Component(c)))
            } else {
                Err(ParseError::UnterminatedComponent)
            },
        }
    } else if s[pos] == '#' {
        let end = find_char(s, pos, s.len() as int, '\n');
        let level = hashes(s, pos, end, 0);
        let heading = BlockModel::Heading { level: level as u8, text: trim_text(s, pos + level, end) };
        let next = if end < s.len() {
            end + 1
        } else {
            end
        };
        if pos < next <= s.len() {
            children_from(s, next, name, acc.push(heading))
        } else {
            Err(ParseError::UnterminatedComponent)
        }
    } else {
        let lt = find_char(s, pos, s.len() as int, '<');
        let nl = find_char(s, pos, s.len() as int, '\n');
        let end = if lt < nl {
            lt
        } else {
            nl
        };
        let text = trim_text(s, pos, end);
        let acc2 = if text.len() > 0 {
            acc.push(BlockModel::Paragraph(text))
        } else {
            acc
        };
        if pos < end <= s.len() {
            children_from(s, end, name, acc2)
        } else {
            Err(ParseError::UnterminatedComponent)
        }
    }
}

/// The blocks of a front page from `i` on, after those in `acc`.
pub open spec fn blocks_from(s: Seq<char>, i: int, acc: Seq<BlockModel>) -> Result<Seq<BlockModel>, ParseError>
    decreases s.len() + 1 - i,
{
    let i1 = skip_newlines(s, i);
    if i < 0 || i1 < i || i1 >= s.len() {
        Ok(acc)
    } else if s[i1] == '#' {
        let level = hashes(s, i1, s.len() as int, 0);
        let j = i1 + level;
        let j2 = if j < s.len() && s[j] == ' ' {
            j + 1
        } else {
            j
        };
        let e = find_char(s, j2, s.len() as int, '\n');
        let heading = BlockModel::Heading { level: level as u8, text: trim_text(s, j2, e) };
        let next = if e < s.len() {
            e + 1
        } else {
            s.len() as int
        };
        if i < next <= s.len() {
            blocks_from(s, next, acc.push(heading))
        } else {
            Ok(acc)
        }
    } else if s[i1] == '<' {
        match component_at(s, i1) {
            Err(err) => Err(err),
            Ok((c, end)) => if i < end <= s.len() {
                blocks_from(s, end, acc.push(BlockModel::Component(c)))
            } else {
                Ok(acc)
            },
        }
    } else {
        let lt = find_char(s, i1, s.len() as int, '<');
        let nl = find_char(s, i1, s.len() as int, '\n');
        let e = if lt < nl {
            lt
        } else {
            nl
        };
        let text = trim_text(s, i1, e);
        let acc2 = if text.len() > 0 {
            acc.push(BlockModel::Paragraph(text))
        } else {
            acc
        };
        let next = if e < s.len() && s[e] == '\n' {
            e + 1
        } else {
            e
        };
        if i < next <= s.len() {
            blocks_from(s, next, acc2)
        } else {
            Ok(acc)
        }
    }
}


fn find_char_in(s: &Vec<char>, from: usize, to: usize, c: char) -> (r: usize)
    requires
        from <= to <= s.len(),
    ensures
        r as int == find_char(s@, from as int, to as int, c),
        from <= r <= to,
{
    let mut i = from;
    while i < to && s[i] != c
        invariant
            from <= i <= to,
            to <= s.len(),
            find_char(s@, from as int, to as int, c) == find_char(s@, i as int, to as int, c),
        decreases to - i,
    {
        i = i + 1;
    }
    i
}

fn find_white_space(s: &Vec<char>, from: usize, to: usize) -> (r: usize)
    requires
        from <= to <= s.len(),
    ensures
        r as int == find_ws(s@, from as int, to as int),
        from <= r <= to,
{
    let mut i = from;
    while i < to && !is_white_space(s[i])
        invariant
            from <= i <= to,
            to <= s.len(),
            find_ws(s@, from as int, to as int) == find_ws(s@, i as int, to as int),
        decreases to - i,
    {
        i = i + 1;
    }
    i
}

fn back_over_slashes(s: &Vec<char>, from: usize, to: usize) -> (r: usize)
    requires
        from <= to <= s.len(),
    ensures
        r as int == back_slashes(s@, from as int, to as int),
        from <= r <= to,
{
    let mut j = to;
    while j > from && s[j - 1] == '/'
        invariant
            from <= j <= to,
            to <= s.len(),
            back_slashes(s@, from as int, to as int) == back_slashes(s@, from as int, j as int),
        decreases j,
    {
        j = j - 1;
    }
    j
}

fn count_hashes(s: &Vec<char>, from: usize, to: usize) -> (r: usize)
    requires
        from <= to <= s.len(),
    ensures
        r as int == hashes(s@, from as int, to as int, 0),
        r <= 4,
        from + r <= to,
{
    let mut n: usize = 0;
    while n < 4 && from + n < to && s[from + n] == '#'
        invariant
            n <= 4,
            from + n <= to,
            to <= s.len(),
            hashes(s@, from as int, to as int, 0) == hashes(s@, from as int, to as int, n as int),
        decreases 4 - n,
    {
        n = n + 1;
    }
    n
}

fn skip_line_breaks(s: &Vec<char>, from: usize) -> (r: usize)
    requires
        from <= s.len(),
    ensures
        r as int == skip_newlines(s@, from as int),
        from <= r <= s.len(),
{
    let mut i = from;
    while i < s.len() && (s[i] == '\n' || s[i] == '\r')
        invariant
            from <= i <= s.len(),
            skip_newlines(s@, from as int) == skip_newlines(s@, i as int),
        decreases s.len() - i,
    {
        i = i + 1;
    }
    i
}

fn trimmed_string(s: &Vec<char>, from: usize, to: usize) -> (r: String)
    requires
        from <= to <= s.len(),
    ensures
        r@ == trim_text(s@, from as int, to as int),
{
    let a = skip_white_space(s, from, to);
    let b = back_white_space(s, a, to);
    string_of(s, a, b)
}

/// Parses the attributes in `s[p..e]`.
fn parse_attrs(s: &Vec<char>, from: usize, e: usize) -> (r: Result<Vec<Attr>, ParseError>)
    requires
        from <= e <= s.len(),
    ensures
        match attrs_from(s@, from as int, e as int, seq![]) {
            Ok(v) => r is Ok && attrs_view(r->Ok_0@) == v,
            Err(err) => r == Err::<Vec<Attr>, ParseError>(err),
        },
{
    let mut attrs: Vec<Attr> = Vec::new();
    let mut p = from;
    assert(attrs_view(attrs@) =~= seq![]);
    while p < e
        invariant
            p <= e <= s.len(),
            attrs_from(s@, from as int, e as int, seq![]) == attrs_from(s@, p as int, e as int, attrs_view(attrs@)),
        ensures
            attrs_from(s@, from as int, e as int, seq![]) == Ok::<Seq<(Seq<char>, Seq<char>)>, ParseError>(attrs_view(attrs@)),
        decreases e - p,
    {
        let eq = find_char_in(s, p, e, '=');
        if eq >= e {
            break;
        }
        let key = trimmed_string(s, p, eq);
        let q = eq + 1;
        let ghost before = attrs@;
        if q < e && s[q] == '"' {
            let endq = find_char_in(s, q + 1, e, '"');
            if endq >= e {
                return Err(ParseError::UnterminatedQuote);
            }
            let value = string_of(s, q + 1, endq);
            let next = skip_white_space(s, endq + 1, e);
            attrs.push(Attr { key, value });
            assert(attrs_view(attrs@) =~= attrs_view(before).push((key@, value@)));
            p = next;
        } else {
            let sp = find_char_in(s, q, e, ' ');
            let gt = find_char_in(s, q, e, '>');
            let end = if sp < gt {
                sp
            } else {
                gt
            };
            let ta = skip_white_space(s, q, end);
            let tb = back_white_space(s, ta, end);
            let vb = back_over_slashes(s, ta, tb);
            let value = string_of(s, ta, vb);
            let next = skip_white_space(s, end, e);
            attrs.push(Attr { key, value });
            assert(attrs_view(attrs@) =~= attrs_view(before).push((key@, value@)));
            p = next;
        }
    }
    Ok(attrs)
}


fn starts_with_at(s: &Vec<char>, pos: usize, tag: &Vec<char>) -> (r: bool)
    requires
        pos <= s.len(),
    ensures
        r == (pos + tag.len() <= s.len() && s@.subrange(pos as int, pos + tag.len()) == tag@),
{
    if tag.len() > s.len() - pos {
        return false;
    }
    let mut k: usize = 0;
    while k < tag.len()
        invariant
            k <= tag.len(),
            pos + tag.len() <= s.len(),
            forall|m: int| 0 <= m < k ==> s@[pos + m] == tag@[m],
        decreases tag.len() - k,
    {
        if s[pos + k] != tag[k] {
            assert(s@.subrange(pos as int, pos + tag.len())[k as int] != tag@[k as int]);
            return false;
        }
        k = k + 1;
    }
    assert(s@.subrange(pos as int, pos + tag.len()) =~= tag@);
    true
}

pub(crate) proof fn lemma_blocks_view_index(s: Seq<Block>)
    ensures
        blocks_view(s).len() == s.len(),
        forall|i: int| 0 <= i < s.len() ==> #[trigger] blocks_view(s)[i] == block_view(&s[i]),
    decreases s.len(),
{
    if s.len() > 0 {
        lemma_blocks_view_index(s.drop_last());
    }
}

proof fn lemma_blocks_view_push(s: Seq<Block>, b: Block)
    ensures
        blocks_view(s.push(b)) == blocks_view(s).push(block_view(&b)),
{
    assert(s.push(b).drop_last() =~= s);
}

/// Parses the component whose tag opens at `start`.
#[verifier::loop_isolation(false)]
fn parse_component(s: &Vec<char>, start: usize) -> (r: Result<(Component, usize), ParseError>)
    requires
        start < s.len(),
        s@[start as int] == '<',
    ensures
        match component_at(s@, start as int) {
            Ok((c, end)) => r is Ok && component_view(&r->Ok_0.0) == c && r->Ok_0.1 == end,
            Err(err) => r == Err::<(Component, usize), ParseError>(err),
        },
    decreases s.len() - start,
{
    let close = find_char_in(s, start + 1, s.len(), '>');
    if close >= s.len() {
        return Err(ParseError::UnterminatedTag);
    }
    let ib = start + 1;
    let e = back_white_space(s, ib, close);
    let self_close = e > ib && s[e - 1] == '/';
    let e2 = back_over_slashes(s, ib, close);
    let a = skip_white_space(s, ib, e2);
    let b = back_white_space(s, a, e2);
    if a >= b {
        return Err(ParseError::MissingName);
    }
    let ne = find_white_space(s, a, b);
    let name = string_of(s, a, ne);
    let ra = skip_white_space(s, ne, b);
    let rb = back_white_space(s, ra, b);
    let attrs = match parse_attrs(s, ra, rb) {
        Ok(v) => v,
        Err(err) => return Err(err),
    };
    if self_close {
        let c = Component { name, attrs, children: Vec::new(), self_closing: true };
        assert(blocks_view(c.children@) =~= seq![]);
        return Ok((c, close + 1));
    }
    let mut tag: Vec<char> = Vec::new();
    tag.push('<');
    tag.push('/');
    let mut k = a;
    while k < ne
        invariant
            a <= k <= ne,
            ne <= s.len(),
            tag@ == seq!['<', '/'] + s@.subrange(a as int, k as int),
        decreases ne - k,
    {
        tag.push(s[k]);
        assert(s@.subrange(a as int, k + 1) =~= s@.subrange(a as int, k as int).push(s@[k as int]));
        k = k + 1;
    }
    tag.push('>');
    assert(tag@ =~= close_tag(name@));
    let mut kids: Vec<Block> = Vec::new();
    assert(blocks_view(kids@) =~= seq![]);
    let mut pos = close + 1;
    while !starts_with_at(s, pos, &tag)
        invariant
            start < close + 1 <= pos <= s.len(),
            tag@ == close_tag(name@),
            children_from(s@, close + 1, name@, seq![]) == children_from(s@, pos as int, name@, blocks_view(kids@)),
        decreases s.len() - pos,
    {
        if pos == s.len() {
            return Err(ParseError::UnterminatedComponent);
        }
        let c = s[pos];
        let ghost before = kids@;
        if c == '\n' || c == '\r' {
            pos = pos + 1;
        } else if c == '<' {
            let (child, end) = match parse_component(s, pos) {
                Ok(x) => x,
                Err(err) => return Err(err),
            };
            if !(pos < end && end <= s.len()) {
                return Err(ParseError::UnterminatedComponent);
            }
            let blk = Block::Component(child);
            proof {
                lemma_blocks_view_push(before, blk);
            }
            kids.push(blk);
            pos = end;
        } else if c == '#' {
            let end = find_char_in(s, pos, s.len(), '\n');
            let level = count_hashes(s, pos, end);
            let text = trimmed_string(s, pos + level, end);
            let next = if end < s.len() {
                end + 1
            } else {
                end
            };
            if !(pos < next) {
                return Err(ParseError::UnterminatedComponent);
            }
            let blk = Block::Heading { level: level as u8, text };
            proof {
                lemma_blocks_view_push(before, blk);
            }
            kids.push(blk);
            pos = next;
        } else {
            let lt = find_char_in(s, pos, s.len(), '<');
            let nl = find_char_in(s, pos, s.len(), '\n');
            let end = if lt < nl {
                lt
            } else {
                nl
            };
            let text = trimmed_string(s, pos, end);
            if !(pos < end) {
                return Err(ParseError::UnterminatedComponent);
            }
            if !text.as_str().is_empty() {
                let blk = Block::Paragraph(text);
                proof {
                    lemma_blocks_view_push(before, blk);
                }
                kids.push(blk);
            }
            pos = end;
        }
    }
    let tl = tag.len();
    Ok((Component { name, attrs, children: kids, self_closing: false }, pos + tl))
}

/// Reads front-page markup: `#` headings (up to four levels), components in
/// angle brackets with attributes and children, and paragraphs of plain text.
pub fn parse(input: &str) -> (r: Result<Document, ParseError>)
    ensures
        match blocks_from(input@, 0, seq![]) {
            Ok(v) => r is Ok && blocks_view(r->Ok_0.blocks@) == v,
            Err(err) => r == Err::<Document, ParseError>(err),
        },
{
    let cs = chars_of(input);
    let s = &cs;
    let mut blocks: Vec<Block> = Vec::new();
    assert(blocks_view(blocks@) =~= seq![]);
    let mut i: usize = 0;
    while i < s.len()
        invariant
            i <= s.len(),
            s@ == input@,
            blocks_from(s@, 0, seq![]) == blocks_from(s@, i as int, blocks_view(blocks@)),
        ensures
            blocks_from(s@, 0, seq![]) == Ok::<Seq<BlockModel>, ParseError>(blocks_view(blocks@)),
        decreases s.len() - i,
    {
        let i1 = skip_line_breaks(s, i);
        if i1 >= s.len() {
            break;
        }
        let ghost before = blocks@;
        if s[i1] == '#' {
            let level = count_hashes(s, i1, s.len());
            let j = i1 + level;
            let j2 = if j < s.len() && s[j] == ' ' {
                j + 1
            } else {
                j
            };
            let e = find_char_in(s, j2, s.len(), '\n');
            let text = trimmed_string(s, j2, e);
            let next = if e < s.len() {
                e + 1
            } else {
                s.len()
            };
            if !(i < next) {
                break;
            }
            let blk = Block::Heading { level: level as u8, text };
            proof {
                lemma_blocks_view_push(before, blk);
            }
            blocks.push(blk);
            i = next;
        } else if s[i1] == '<' {
            let (c, end) = match parse_component(s, i1) {
                Ok(x) => x,
                Err(err) => return Err(err),
            };
            if !(i < end && end <= s.len()) {
                break;
            }
            let blk = Block::Component(c);
            proof {
                lemma_blocks_view_push(before, blk);
            }
            blocks.push(blk);
            i = end;
        } else {
            let lt = find_char_in(s, i1, s.len(), '<');
            let nl = find_char_in(s, i1, s.len(), '\n');
            let e = if lt < nl {
                lt
            } else {
                nl
            };
            let text = trimmed_string(s, i1, e);
            let next = if e < s.len() && s[e] == '\n' {
                e + 1
            } else {
                e
            };
            if !(i < next) {
                break;
            }
            if !text.as_str().is_empty() {
                let blk = Block::Paragraph(text);
                proof {
                    lemma_blocks_view_push(before, blk);
                }
                blocks.push(blk);
            }
            i = next;
        }
    }
    Ok(Document { blocks })
}

/// The value of the first attribute whose key is `key`.
pub open spec fn attr_lookup(attrs: Seq<(Seq<char>, Seq<char>)>, key: Seq<char>) -> Option<Seq<char>>
    decreases attrs.len(),
{
    if attrs.len() == 0 {
        None
    } else if attrs[0].0 == key {
        Some(attrs[0].1)
    } else {
        attr_lookup(attrs.drop_first(), key)
    }
}

/// The value of the first attribute whose key is `key`.
pub fn find_attr<'a>(attrs: &'a [Attr], key: &str) -> (r: Option<&'a str>)
    ensures
        match attr_lookup(attrs_view(attrs@), key@) {
            Some(v) => r is Some && r->0@ == v,
            None => r is None,
        },
{
    let ghost all = attrs_view(attrs@);
    assert(all.skip(0) =~= all);
    let mut i: usize = 0;
    while i < attrs.len()
        invariant
            i <= attrs.len(),
            all == attrs_view(attrs@),
            attr_lookup(all, key@) == attr_lookup(all.skip(i as int), key@),
        decreases attrs.len() - i,
    {
        assert(all.skip(i as int)[0] == (attrs@[i as int].key@, attrs@[i as int].value@));
        if crate::text::same_text(attrs[i].key.as_str(), key) {
            return Some(attrs[i].value.as_str());
        }
        assert(all.skip(i as int).drop_first() =~= all.skip(i + 1));
        i = i + 1;
    }
    None
}

} // verus!
