//! From text to expressions.

use vstd::prelude::*;
use vstd::string::{StrSliceExecFns, StringExecFns};
use crate::error::{Error, Failure};
use crate::heap::{Heap, Store};
use crate::text::same_text;
use crate::value::{Data, Value};

verus! {

/// Whether `c` is white space.
pub open spec fn is_space(c: char) -> bool {
    let u = c as u32;
    ||| 0x09 <= u <= 0x0d
    ||| u == 0x20
    ||| u == 0x85
    ||| u == 0xa0
    ||| u == 0x1680
    ||| 0x2000 <= u <= 0x200a
    ||| u == 0x2028
    ||| u == 0x2029
    ||| u == 0x202f
    ||| u == 0x205f
    ||| u == 0x3000
}

/// Whether `c` is a parenthesis.
pub open spec fn is_paren(c: char) -> bool {
    c == '(' || c == ')'
}

/// Where the word that holds position `i` of `s` ends: the first position
/// from `i` on that holds white space or a parenthesis, or the end of `s`.
pub open spec fn word_end(s: Seq<char>, i: nat) -> nat
    decreases s.len() - i,
{
    if i >= s.len() || is_space(s[i as int]) || is_paren(s[i as int]) {
        i
    } else {
        word_end(s, i + 1)
    }
}

/// A word ends at or after the place where it is looked for, and within the
/// text.
pub proof fn lemma_word_end(s: Seq<char>, i: nat)
    ensures
        i <= word_end(s, i),
        i <= s.len() ==> word_end(s, i) <= s.len(),
    decreases s.len() - i,
{
    if !(i >= s.len() || is_space(s[i as int]) || is_paren(s[i as int])) {
        lemma_word_end(s, i + 1);
    }
}

/// The tokens of `s` from position `i` on: each parenthesis is a token, and
/// so is each longest run of characters that are neither white space nor
/// parentheses.
pub open spec fn tokens_from(s: Seq<char>, i: nat) -> Seq<Seq<char>>
    decreases s.len() - i,
{
    if i >= s.len() {
        Seq::empty()
    } else if is_space(s[i as int]) {
        tokens_from(s, i + 1)
    } else if is_paren(s[i as int]) {
        seq![s.subrange(i as int, i as int + 1)] + tokens_from(s, i + 1)
    } else {
        proof {
            lemma_word_end(s, i + 1);
        }
        seq![s.subrange(i as int, word_end(s, i + 1) as int)] + tokens_from(
            s,
            word_end(s, i + 1),
        )
    }
}

/// The tokens of `s`.
pub open spec fn tokens(s: Seq<char>) -> Seq<Seq<char>> {
    tokens_from(s, 0)
}

/// Whether `t` has the form of a token: one parenthesis, or a word, which is
/// not empty and holds neither white space nor a parenthesis.
pub open spec fn is_token(t: Seq<char>) -> bool {
    ||| t.len() == 1 && is_paren(t[0])
    ||| t.len() > 0 && forall|k: int|
        0 <= k < t.len() ==> !is_space(#[trigger] t[k]) && !is_paren(t[k])
}

/// No character of a word is white space or a parenthesis.
proof fn lemma_word(s: Seq<char>, i: nat, k: nat)
    requires
        i <= k < word_end(s, i),
    ensures
        k < s.len(),
        !is_space(s[k as int]),
        !is_paren(s[k as int]),
    decreases s.len() - i,
{
    if !(i >= s.len() || is_space(s[i as int]) || is_paren(s[i as int])) {
        if k > i {
            lemma_word(s, i + 1, k);
        }
    }
}

/// Every token has the form of one: none is empty, none holds white space,
/// and a parenthesis stands alone.
pub proof fn law_tokens(s: Seq<char>, i: nat, k: int)
    requires
        0 <= k < tokens_from(s, i).len(),
    ensures
        is_token(tokens_from(s, i)[k]),
    decreases s.len() - i,
{
    if i < s.len() {
        if is_space(s[i as int]) {
            law_tokens(s, i + 1, k);
        } else if is_paren(s[i as int]) {
            if k > 0 {
                law_tokens(s, i + 1, k - 1);
            }
        } else {
            let end = word_end(s, i + 1);
            lemma_word_end(s, i + 1);
            if k > 0 {
                law_tokens(s, end, k - 1);
            } else {
                let t = s.subrange(i as int, end as int);
                assert forall|j: int| 0 <= j < t.len() implies !is_space(#[trigger] t[j])
                    && !is_paren(t[j]) by {
                    if j > 0 {
                        lemma_word(s, i + 1, (i + j) as nat);
                    }
                }
            }
        }
    }
}

/// What a vector of strings stands for.
pub open spec fn texts(v: Seq<String>) -> Seq<Seq<char>> {
    Seq::new(v.len(), |k: int| v[k]@)
}

/// Whether `c` is white space.
pub fn space(c: char) -> (r: bool)
    ensures
        r == is_space(c),
{
    let u = c as u32;
    (0x09 <= u && u <= 0x0d) || u == 0x20 || u == 0x85 || u == 0xa0 || u == 0x1680 || (0x2000 <= u
        && u <= 0x200a) || u == 0x2028 || u == 0x2029 || u == 0x202f || u == 0x205f || u == 0x3000
}

/// Splits a line of text into its tokens.
pub fn tokenize(chars: &str) -> (out: Vec<String>)
    ensures
        texts(out@) == tokens(chars@),
{
    let n = chars.unicode_len();
    let mut out: Vec<String> = Vec::new();
    let mut i: usize = 0;
    while i < n
        invariant
            n == chars@.len(),
            i <= n,
            tokens(chars@) == texts(out@) + tokens_from(chars@, i as nat),
        decreases n - i,
    {
        let c = chars.get_char(i);
        if space(c) {
            i = i + 1;
        } else {
            let start = i;
            i = i + 1;
            if c != '(' && c != ')' {
                while i < n && !space(chars.get_char(i)) && chars.get_char(i) != '(' && chars.get_char(
                    i,
                ) != ')'
                    invariant
                        n == chars@.len(),
                        start < i <= n,
                        word_end(chars@, (start + 1) as nat) == word_end(chars@, i as nat),
                    decreases n - i,
                {
                    i = i + 1;
                }
            }
            let token = chars.substring_char(start, i).to_owned();
            proof {
                let before = texts(out@);
                let after = texts(out@.push(token));
                assert(after =~= before + seq![token@]);
                assert(before + (seq![token@] + tokens_from(chars@, i as nat)) =~= after
                    + tokens_from(chars@, i as nat));
            }
            out.push(token);
        }
    }
    assert(texts(out@) + Seq::<Seq<char>>::empty() =~= texts(out@));
    out
}

/// A token, told apart: a parenthesis, a number or a word.
#[derive(Debug)]
pub enum Token {
    Open,
    Close,
    /// A number, by its bits.
    Number(u64),
    Word(String),
}

/// What a [`Token`] stands for.
pub enum Lexeme {
    Open,
    Close,
    Number(u64),
    Word(Seq<char>),
}

impl View for Token {
    type V = Lexeme;

    open spec fn view(&self) -> Lexeme {
        match self {
            Token::Open => Lexeme::Open,
            Token::Close => Lexeme::Close,
            Token::Number(bits) => Lexeme::Number(*bits),
            Token::Word(w) => Lexeme::Word(w@),
        }
    }
}

impl Lexeme {
    /// The token that `text` spells, where `number` is the number that it
    /// spells, if it spells one.
    pub open spec fn of(text: Seq<char>, number: Option<u64>) -> Lexeme {
        if text == "("@ {
            Lexeme::Open
        } else if text == ")"@ {
            Lexeme::Close
        } else {
            match number {
                Some(bits) => Lexeme::Number(bits),
                None => Lexeme::Word(text),
            }
        }
    }
}

impl Token {
    /// The token that `text` spells, where `number` is the number that it
    /// spells, if it spells one.
    pub fn of(text: String, number: Option<u64>) -> (t: Token)
        ensures
            t@ == Lexeme::of(text@, number),
    {
        if same_text(text.as_str(), "(") {
            Token::Open
        } else if same_text(text.as_str(), ")") {
            Token::Close
        } else {
            match number {
                Some(bits) => Token::Number(bits),
                None => Token::Word(text),
            }
        }
    }
}

/// What a vector of tokens stands for.
pub open spec fn lexemes(v: Seq<Token>) -> Seq<Lexeme> {
    Seq::new(v.len(), |k: int| v[k]@)
}

/// What the result of reading stands for: the expression and the position of
/// the token after it.
pub open spec fn reading(r: Result<(Data, usize), Error>) -> Result<(Value, nat), Failure> {
    match r {
        Ok((d, next)) => Ok((d@, next as nat)),
        Err(e) => Err(e@),
    }
}

impl Store {
    /// The expression that starts at token `pos`, with the position of the
    /// token after it.
    ///
    /// A number is itself, a word is a symbol, and an opening parenthesis
    /// starts a list that runs to the closing one that matches it.  A closing
    /// parenthesis where an expression starts is read as the symbol `)`.
    pub open spec fn read(self, toks: Seq<Lexeme>, pos: nat) -> (
        Result<(Value, nat), Failure>,
        Store,
    )
        decreases toks.len() - pos, 0nat,
    {
        if pos >= toks.len() {
            (Err(Failure::UnexpectedEnd), self)
        } else {
            match toks[pos as int] {
                Lexeme::Open => self.read_rest(toks, pos + 1, Value::Nil),
                Lexeme::Close => (Ok((Value::Symbol(")"@), pos + 1)), self),
                Lexeme::Number(bits) => (Ok((Value::Float(bits), pos + 1)), self),
                Lexeme::Word(w) => (Ok((Value::Symbol(w), pos + 1)), self),
            }
        }
    }

    /// The list whose elements from token `pos` on are still to be read,
    /// where `acc` holds the elements read so far, last first.
    pub open spec fn read_rest(self, toks: Seq<Lexeme>, pos: nat, acc: Value) -> (
        Result<(Value, nat), Failure>,
        Store,
    )
        decreases toks.len() - pos, 1nat,
    {
        if pos >= toks.len() {
            (Err(Failure::Unclosed), self)
        } else if toks[pos as int] is Close {
            match self.reversed(acc).0 {
                Ok(list) => (Ok((list, pos + 1)), self.reversed(acc).1),
                Err(e) => (Err(e), self.reversed(acc).1),
            }
        } else {
            let (r, s1) = self.read(toks, pos);
            match r {
                Err(e) => (Err(e), s1),
                Ok((v, next)) => if pos < next <= toks.len() {
                    s1.add_cell(v, acc).read_rest(toks, next, Value::Cons(s1.cells.len()))
                } else {
                    (Err(Failure::Unclosed), s1)
                },
            }
        }
    }
}

/// Reads the expression that starts at token `pos` and gives it with the
/// position of the token after it.
pub fn read_from_tokens(tokens: &Vec<Token>, pos: usize, heap: &mut Heap) -> (r: Result<
    (Data, usize),
    Error,
>)
    ensures
        reading(r) == old(heap)@.read(lexemes(tokens@), pos as nat).0,
        final(heap)@ == old(heap)@.read(lexemes(tokens@), pos as nat).1,
    decreases tokens.len() - pos, 0nat,
{
    if pos >= tokens.len() {
        return Err(Error::UnexpectedEnd);
    }
    let ghost toks = lexemes(tokens@);
    assert(toks[pos as int] == tokens[pos as int]@);
    match &tokens[pos] {
        Token::Open => {},
        Token::Close => {
            return Ok((Data::Symbol(String::from_str(")")), pos + 1));
        },
        Token::Number(bits) => {
            return Ok((Data::Float(*bits), pos + 1));
        },
        Token::Word(w) => {
            return Ok((Data::Symbol(w.clone()), pos + 1));
        },
    }
    let ghost goal = heap@.read_rest(toks, (pos + 1) as nat, Value::Nil);
    let mut list = Data::Nil;
    let mut at: usize = pos + 1;
    loop
        invariant
            pos < at,
            toks == lexemes(tokens@),
            goal == old(heap)@.read(toks, pos as nat),
            goal == heap@.read_rest(toks, at as nat, list@),
        decreases tokens.len() - at,
    {
        if at >= tokens.len() {
            return Err(Error::Unclosed);
        }
        assert(toks[at as int] == tokens[at as int]@);
        if let Token::Close = &tokens[at] {
            return match list.nreverse(heap) {
                Ok(list) => Ok((list, at + 1)),
                Err(e) => Err(e),
            };
        }
        match read_from_tokens(tokens, at, heap) {
            Err(e) => {
                return Err(e);
            },
            Ok((v, next)) => {
                if next <= at || next > tokens.len() {
                    return Err(Error::Unclosed);
                }
                list = v.cons(list, heap);
                at = next;
            },
        }
    }
}

} // verus!
