use vstd::prelude::*;

use crate::isa::{lookup_mnemonic, opcode_spec, register_index_of, register_spec};
use crate::text::{
    before_comma, cut_at_comma, parse_literal, parse_literal_spec, split_words, to_upper, trim,
    trimmed, upper_of, words,
};

verus! {

/// `s` cut into lines at each line feed (the text after the last one is a line too).
pub open spec fn split_lines(s: Seq<char>) -> Seq<Seq<char>>
    decreases s.len(),
{
    if s.len() == 0 {
        seq![Seq::empty()]
    } else {
        let prev = split_lines(s.drop_last());
        if s.last() == '\n' {
            prev.push(Seq::empty())
        } else {
            prev.update(prev.len() - 1, prev.last().push(s.last()))
        }
    }
}

/// Position of the first `//` at or after `k` in `line`, or the length of `line`.
pub open spec fn comment_from(line: Seq<char>, k: int) -> int
    decreases line.len() - k,
{
    if k < 0 || k + 1 >= line.len() {
        line.len() as int
    } else if line[k] == '/' && line[k + 1] == '/' {
        k
    } else {
        comment_from(line, k + 1)
    }
}

/// A source line without its comment and without white space at either end.
pub open spec fn code_part(line: Seq<char>) -> Seq<char> {
    trimmed(line.take(comment_from(line, 0)))
}

/// The code part of a source line with its letters raised to upper case; empty where the
/// line holds no code.
pub open spec fn clean_line(line: Seq<char>) -> Seq<char> {
    if code_part(line).len() == 0 {
        Seq::empty()
    } else {
        upper_of(code_part(line))
    }
}

/// An operand token as the token line holds it: a register name loses its comma.
pub open spec fn operand_token(t: Seq<char>) -> Seq<char> {
    if t.len() > 0 && t[0] == 'R' {
        before_comma(t)
    } else {
        t
    }
}

/// The tokens of a cleaned line: the mnemonic, then its operands.
pub open spec fn line_tokens(u: Seq<char>) -> Seq<Seq<char>> {
    Seq::new(
        words(u).len(),
        |i: int|
            if i == 0 {
                words(u)[0]
            } else {
                operand_token(words(u)[i])
            },
    )
}

/// Token lines of the source lines `lines`; lines that clean to nothing are left out.
pub open spec fn token_lines(lines: Seq<Seq<char>>) -> Seq<Seq<Seq<char>>>
    decreases lines.len(),
{
    if lines.len() == 0 {
        Seq::empty()
    } else {
        let prev = token_lines(lines.drop_last());
        let u = clean_line(lines.last());
        if u.len() == 0 {
            prev
        } else {
            prev.push(line_tokens(u))
        }
    }
}

/// Token lines of the source text `code`.
pub open spec fn tokens_spec(code: Seq<char>) -> Seq<Seq<Seq<char>>> {
    token_lines(split_lines(code))
}

/// Value of one token: the first of a line is a mnemonic, a later one a register name or a
/// decimal literal; -1 where it resolves to nothing.
pub open spec fn encode_token(t: Seq<char>, first: bool) -> int {
    encode_upper(upper_of(trimmed(t)), first)
}

/// Value of a trimmed, upper-case token; `first` marks the mnemonic of a line.
pub open spec fn encode_upper(u: Seq<char>, first: bool) -> int {
    if first {
        opcode_spec(u)
    } else if u.len() > 0 && u[0] == 'R' {
        register_spec(before_comma(u))
    } else {
        parse_literal_spec(u)
    }
}

/// The values of the tokens of one line, in order.
pub open spec fn encode_line(line: Seq<Seq<char>>) -> Seq<i32> {
    Seq::new(line.len(), |i: int| encode_token(line[i], i == 0) as i32)
}

/// Bytecode of token lines: the values of all their tokens, line after line.
pub open spec fn encode(lines: Seq<Seq<Seq<char>>>) -> Seq<i32>
    decreases lines.len(),
{
    if lines.len() == 0 {
        Seq::empty()
    } else {
        encode(lines.drop_last()) + encode_line(lines.last())
    }
}

/// Token lines of source lines that hold no code are empty.
proof fn lemma_no_code_no_tokens(lines: Seq<Seq<char>>)
    requires
        forall|i: int| 0 <= i < lines.len() ==> #[trigger] code_part(lines[i]).len() == 0,
    ensures
        token_lines(lines) == Seq::<Seq<Seq<char>>>::empty(),
    decreases lines.len(),
{
    if lines.len() > 0 {
        let p = lines.drop_last();
        assert forall|i: int| 0 <= i < p.len() implies #[trigger] code_part(p[i]).len() == 0 by {
            assert(p[i] == lines[i]);
        }
        lemma_no_code_no_tokens(p);
        assert(code_part(lines[lines.len() - 1]).len() == 0);
    }
}

/// Source text in which no line holds code (empty text, blank lines and comment lines)
/// assembles to empty bytecode.
pub proof fn lemma_blank_source_assembles_empty(code: Seq<char>)
    requires
        forall|i: int|
            0 <= i < split_lines(code).len() ==> #[trigger] code_part(split_lines(code)[i]).len()
                == 0,
    ensures
        encode(tokens_spec(code)) == Seq::<i32>::empty(),
{
    lemma_no_code_no_tokens(split_lines(code));
}

/// Translates source text into bytecode.
pub struct Assembler {}

/// Value of a trimmed, upper-case token; `first` marks the mnemonic of a line.
pub fn encode_upper_token(u: &str, first: bool) -> (r: i32)
    ensures
        r == encode_upper(u@, first),
{
    if first {
        lookup_mnemonic(u)
    } else if u.unicode_len() > 0 && u.get_char(0) == 'R' {
        register_index_of(cut_at_comma(u))
    } else {
        parse_literal(u)
    }
}

/// Value of one token; `first` marks the mnemonic of a line.
fn encode_one(t: &str, first: bool) -> (r: i32)
    ensures
        r == encode_token(t@, first),
{
    let u = to_upper(trim(t));
    encode_upper_token(u.as_str(), first)
}

/// Tokens of a cleaned (comment-free, trimmed, upper-case) line: its words, with the
/// comma cut from register operands.
pub fn tokens_of_clean_line(u: &str) -> (r: Vec<String>)
    ensures
        r.deep_view() == line_tokens(u@),
{
    let ws = split_words(u);
    let ghost w = words(u@);
    let mut out: Vec<String> = Vec::new();
    let mut j: usize = 0;
    while j < ws.len()
        invariant
            ws.deep_view() == w,
            w == words(u@),
            j <= ws.len(),
            out.deep_view() == line_tokens(u@).take(j as int),
        decreases ws.len() - j,
    {
        let t = ws[j].as_str();
        let ghost before = out.deep_view();
        assert(ws[j as int]@ == w[j as int]);
        let tok = if j > 0 && t.unicode_len() > 0 && t.get_char(0) == 'R' {
            String::from_str(cut_at_comma(t))
        } else {
            String::from_str(t)
        };
        assert(tok@ == line_tokens(u@)[j as int]);
        out.push(tok);
        assert(out.deep_view() =~= before.push(line_tokens(u@)[j as int]));
        assert(line_tokens(u@).take(j + 1) =~= line_tokens(u@).take(j as int).push(
            line_tokens(u@)[j as int],
        ));
        j = j + 1;
    }
    assert(line_tokens(u@).take(ws.len() as int) =~= line_tokens(u@));
    out
}

/// Tokens of one source line, or `None` where the line cleans to nothing.
fn tokens_of_line(line: &str) -> (r: Option<Vec<String>>)
    ensures
        clean_line(line@).len() == 0 ==> r is None,
        clean_line(line@).len() > 0 ==> r is Some && r->0.deep_view() == line_tokens(
            clean_line(line@),
        ),
{
    let n = line.unicode_len();
    let mut k: usize = 0;
    while n > 0 && k < n - 1 && !(line.get_char(k) == '/' && line.get_char(k + 1) == '/')
        invariant
            n == line@.len(),
            k <= n,
            comment_from(line@, 0) == comment_from(line@, k as int),
        decreases n - k,
    {
        k = k + 1;
    }
    let end: usize = if n > 0 && k < n - 1 { k } else { n };
    let code = trim(line.substring_char(0, end));
    if code.unicode_len() == 0 {
        return None;
    }
    let u = to_upper(code);
    if u.as_str().unicode_len() == 0 {
        return None;
    }
    Some(tokens_of_clean_line(u.as_str()))
}

impl Assembler {
    pub fn new() -> (r: Assembler) {
        Assembler {  }
    }

    /// Translates source text into bytecode.
    pub fn assemble(&self, code: &str) -> (r: Vec<i32>)
        ensures
            r@ == encode(tokens_spec(code@)),
    {
        let tokens = self.get_tokens(code);
        self.get_bytecode(&tokens)
    }

    /// Splits source text into token lines, dropping comments and blank lines.
    pub fn get_tokens(&self, code: &str) -> (r: Vec<Vec<String>>)
        ensures
            r.deep_view() == tokens_spec(code@),
    {
        let n = code.unicode_len();
        let mut out: Vec<Vec<String>> = Vec::new();
        let ghost mut done: Seq<Seq<char>> = Seq::empty();
        let mut start: usize = 0;
        let mut i: usize = 0;
        assert(code@.take(0) =~= Seq::<char>::empty());
        assert(done.push(code@.subrange(0, 0)) =~= seq![Seq::<char>::empty()]);
        while i < n
            invariant
                n == code@.len(),
                start <= i <= n,
                split_lines(code@.take(i as int)) == done.push(code@.subrange(start as int, i as int)),
                out.deep_view() == token_lines(done),
            decreases n - i,
        {
            let c = code.get_char(i);
            assert(code@.take(i + 1).drop_last() =~= code@.take(i as int));
            assert(code@.take(i + 1).last() == c);
            if c == '\n' {
                let line = code.substring_char(start, i);
                let ghost before = out.deep_view();
                let ghost old_done = done;
                proof {
                    done = done.push(line@);
                }
                assert(done.drop_last() =~= old_done);
                match tokens_of_line(line) {
                    Some(t) => {
                        out.push(t);
                        assert(out.deep_view() =~= before.push(t.deep_view()));
                    },
                    None => {},
                }
                start = i + 1;
                assert(code@.subrange(start as int, i + 1) =~= Seq::<char>::empty());
            } else {
                assert(code@.subrange(start as int, i + 1) =~= code@.subrange(
                    start as int,
                    i as int,
                ).push(c));
            }
            i = i + 1;
        }
        assert(code@.take(n as int) =~= code@);
        let line = code.substring_char(start, n);
        let ghost before = out.deep_view();
        let ghost old_done = done;
        proof {
            done = done.push(line@);
        }
        assert(done.drop_last() =~= old_done);
        match tokens_of_line(line) {
            Some(t) => {
                out.push(t);
                assert(out.deep_view() =~= before.push(t.deep_view()));
            },
            None => {},
        }
        out
    }

    /// Encodes token lines into bytecode.
    pub fn get_bytecode(&self, tokens: &Vec<Vec<String>>) -> (r: Vec<i32>)
        ensures
            r@ == encode(tokens.deep_view()),
    {
        let ghost lines = tokens.deep_view();
        let mut bytes: Vec<i32> = Vec::new();
        let mut li: usize = 0;
        while li < tokens.len()
            invariant
                lines == tokens.deep_view(),
                li <= tokens.len(),
                bytes@ == encode(lines.take(li as int)),
            decreases tokens.len() - li,
        {
            let line = &tokens[li];
            let ghost base = bytes@;
            let mut ti: usize = 0;
            assert(lines[li as int] == line.deep_view());
            while ti < line.len()
                invariant
                    line.deep_view() == lines[li as int],
                    ti <= line.len(),
                    bytes@ == base + encode_line(lines[li as int]).take(ti as int),
                decreases line.len() - ti,
            {
                let v = encode_one(line[ti].as_str(), ti == 0);
                bytes.push(v);
                assert(bytes@ =~= base + encode_line(lines[li as int]).take(ti + 1));
                ti = ti + 1;
            }
            assert(lines.take(li + 1).drop_last() =~= lines.take(li as int));
            assert(encode_line(lines[li as int]).take(line.len() as int) =~= encode_line(
                lines[li as int],
            ));
            li = li + 1;
        }
        assert(lines.take(tokens.len() as int) =~= lines);
        bytes
    }
}

} // verus!
