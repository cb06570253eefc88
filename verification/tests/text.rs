use defunct::error::Error;
use defunct::heap::Heap;
use defunct::printer::Piece;
use defunct::reader::{read_from_tokens, space, tokenize, Token};
use defunct::value::{Data, Env};

fn lex_line(line: &str) -> Vec<Token> {
    let mut tokens = Vec::new();
    for word in tokenize(line) {
        let number = word.parse::<f64>().ok().map(f64::to_bits);
        tokens.push(Token::of(word, number));
    }
    tokens
}

fn read_line(line: &str, heap: &mut Heap) -> Result<(Data, usize), Error> {
    read_from_tokens(&lex_line(line), 0, heap)
}

fn written(d: &Data, heap: &Heap) -> String {
    let mut text = String::new();
    for piece in d.show(heap, 200).unwrap() {
        match piece {
            Piece::Text(s) => text.push_str(&s),
            Piece::Number(b) => text.push_str(&format!("{}", f64::from_bits(b))),
        }
    }
    text
}

fn by_the_book(line: &str) -> Vec<String> {
    line.replace("(", " ( ")
        .replace(")", " ) ")
        .split_whitespace()
        .map(|s| s.to_string())
        .collect()
}

#[test]
fn tokenize_splits_at_blanks_and_parentheses() {
    assert_eq!(tokenize("(+ 1 2)"), vec!["(", "+", "1", "2", ")"]);
    assert_eq!(tokenize("(define x (lambda (a b) (+ a b)))").len(), 16);
    assert_eq!(tokenize("a"), vec!["a"]);
    assert_eq!(tokenize("  a   b  "), vec!["a", "b"]);
    assert_eq!(tokenize("a(b)c"), vec!["a", "(", "b", ")", "c"]);
    assert_eq!(tokenize("(("), vec!["(", "("]);
    assert_eq!(tokenize("))"), vec![")", ")"]);
}

#[test]
fn tokenize_of_nothing_is_nothing() {
    assert!(tokenize("").is_empty());
    assert!(tokenize("   ").is_empty());
    assert!(tokenize("\t\n\r").is_empty());
}

#[test]
fn tokenize_agrees_with_split_whitespace() {
    let lines = [
        "(begin (define r 10) (* 3.14 (* r r)))",
        "",
        " ",
        "()",
        "( )",
        "a\tb\nc\rd\u{b}e\u{c}f",
        "x\u{85}y\u{a0}z",
        "p\u{1680}q\u{2000}r\u{200a}s\u{2028}t\u{2029}u\u{202f}v\u{205f}w\u{3000}x",
        "no\u{200b}break\u{feff}here",
        "λ (→ é) 日本語",
        "((a)(b))c)(",
        "trailing   ",
        "   leading",
        "1.5e3 -2 .5 nan inf",
    ];
    for line in lines {
        assert_eq!(tokenize(line), by_the_book(line), "{:?}", line);
    }
}

#[test]
fn space_is_white_space() {
    for code in 0u32..0x3100 {
        if let Some(c) = char::from_u32(code) {
            assert_eq!(space(c), c.is_whitespace(), "{:x}", code);
        }
    }
    assert!(!space('\u{feff}'));
    assert!(!space('\u{10ffff}'));
}

#[test]
fn token_of_parentheses_numbers_and_words() {
    assert!(matches!(Token::of("(".to_string(), None), Token::Open));
    assert!(matches!(Token::of(")".to_string(), None), Token::Close));
    assert!(matches!(Token::of("(".to_string(), Some(1)), Token::Open));
    assert!(matches!(Token::of("12".to_string(), Some(7)), Token::Number(7)));
    assert!(matches!(Token::of("abc".to_string(), None), Token::Word(w) if w == "abc"));
    assert!(matches!(Token::of("()".to_string(), None), Token::Word(w) if w == "()"));
}

#[test]
fn read_an_atom() {
    let mut heap = Heap::new();
    assert!(matches!(read_line("abc", &mut heap), Ok((Data::Symbol(s), 1)) if s == "abc"));
    match read_line("2.5", &mut heap) {
        Ok((Data::Float(bits), 1)) => assert_eq!(f64::from_bits(bits), 2.5),
        other => panic!("{:?}", other),
    }
    assert_eq!(heap.cell_count(), 0);
}

#[test]
fn read_a_list() {
    let mut heap = Heap::new();
    let (list, next) = read_line("(a (b c) 3)", &mut heap).unwrap();
    assert_eq!(next, 8);
    assert_eq!(list.len(&heap).unwrap(), 3);
    assert_eq!(heap.cell_count(), 5);
    assert!(matches!(list.car(&heap), Ok(Data::Symbol(s)) if s == "a"));
    let inner = list.cadr(&heap).unwrap();
    assert_eq!(inner.len(&heap).unwrap(), 2);
    assert!(matches!(inner.last(&heap), Ok(Data::Symbol(s)) if s == "c"));
    assert!(matches!(list.last(&heap), Ok(Data::Float(_))));
}

#[test]
fn read_the_empty_list() {
    let mut heap = Heap::new();
    assert!(matches!(read_line("()", &mut heap), Ok((Data::Nil, 2))));
    assert_eq!(heap.cell_count(), 0);
}

#[test]
fn read_stops_after_one_expression() {
    let mut heap = Heap::new();
    let tokens = lex_line("(a) b (c)");
    let (first, next) = read_from_tokens(&tokens, 0, &mut heap).unwrap();
    assert_eq!(first.len(&heap).unwrap(), 1);
    assert_eq!(next, 3);
    let (second, next) = read_from_tokens(&tokens, next, &mut heap).unwrap();
    assert!(matches!(second, Data::Symbol(s) if s == "b"));
    assert_eq!(next, 4);
    let (third, next) = read_from_tokens(&tokens, next, &mut heap).unwrap();
    assert_eq!(third.len(&heap).unwrap(), 1);
    assert_eq!(next, 7);
    assert!(matches!(read_from_tokens(&tokens, next, &mut heap), Err(Error::UnexpectedEnd)));
}

#[test]
fn read_of_nothing_fails() {
    let mut heap = Heap::new();
    assert!(matches!(read_line("", &mut heap), Err(Error::UnexpectedEnd)));
    assert!(matches!(read_line("   ", &mut heap), Err(Error::UnexpectedEnd)));
    assert!(matches!(read_from_tokens(&lex_line("a"), 5, &mut heap), Err(Error::UnexpectedEnd)));
}

#[test]
fn read_of_an_open_list_fails() {
    let mut heap = Heap::new();
    assert!(matches!(read_line("(", &mut heap), Err(Error::Unclosed)));
    assert!(matches!(read_line("(a b", &mut heap), Err(Error::Unclosed)));
    assert!(matches!(read_line("(a (b c)", &mut heap), Err(Error::Unclosed)));
}

#[test]
fn closing_parenthesis_alone_is_a_symbol() {
    let mut heap = Heap::new();
    assert!(matches!(read_line(")", &mut heap), Ok((Data::Symbol(s), 1)) if s == ")"));
}

#[test]
fn show_atoms() {
    let mut heap = Heap::new();
    let env = Env::new_root(&mut heap);
    assert_eq!(written(&Data::Nil, &heap), "Nil");
    assert_eq!(written(&Data::Symbol("abc".to_string()), &heap), "abc");
    assert_eq!(written(&Data::Float(2.5f64.to_bits()), &heap), "2.5");
    assert_eq!(written(&Data::Float(3.0f64.to_bits()), &heap), "3");
    assert_eq!(written(&Data::PrimitiveFn("car".to_string()), &heap), "#<Function car>");
    let f = Data::make_fn(Data::Nil, Data::Nil, env);
    assert_eq!(written(&f, &heap), "#<Anonymous Function>");
}

#[test]
fn show_pieces_of_a_number_and_a_primitive() {
    let heap = Heap::new();
    let pieces = Data::Float(77).show(&heap, 0).unwrap();
    assert!(matches!(pieces.as_slice(), [Piece::Number(77)]));
    let pieces = Data::PrimitiveFn("cdr".to_string()).show(&heap, 0).unwrap();
    assert_eq!(pieces.len(), 3);
}

#[test]
fn show_lists() {
    let mut heap = Heap::new();
    let (list, _) = read_line("(a b c)", &mut heap).unwrap();
    assert_eq!(written(&list, &heap), "(a b c)");
    let (nested, _) = read_line("(a (b (c)) () 1.5)", &mut heap).unwrap();
    assert_eq!(written(&nested, &heap), "(a (b (c)) Nil 1.5)");
    let (single, _) = read_line("(a)", &mut heap).unwrap();
    assert_eq!(written(&single, &heap), "(a)");
}

#[test]
fn show_dotted_lists() {
    let mut heap = Heap::new();
    let a = Data::Symbol("a".to_string());
    let b = Data::Symbol("b".to_string());
    let c = Data::Symbol("c".to_string());
    let pair = a.clone().cons(b.clone(), &mut heap);
    assert_eq!(written(&pair, &heap), "(a . b)");
    let tail = b.cons(c, &mut heap);
    let longer = a.cons(tail, &mut heap);
    assert_eq!(written(&longer, &heap), "(a b . c)");
}

#[test]
fn show_needs_fuel_for_pairs() {
    let mut heap = Heap::new();
    let (list, _) = read_line("(a b c)", &mut heap).unwrap();
    assert!(matches!(list.show(&heap, 0), Err(Error::Exhausted)));
    assert!(matches!(list.show(&heap, 2), Err(Error::Exhausted)));
    assert!(list.show(&heap, 3).is_ok());
}

#[test]
fn show_of_a_pair_of_another_heap_fails() {
    let mut heap = Heap::new();
    let (list, _) = read_line("(a b c)", &mut heap).unwrap();
    let other = Heap::new();
    assert!(matches!(list.show(&other, 10), Err(Error::NotAPair)));
}

#[test]
fn written_lists_of_symbols_and_numbers_read_back() {
    let lines = ["(a b c)", "(1 2.5 -3)", "(a (b 1) ((c)) d)", "x", "42"];
    for line in lines {
        let mut heap = Heap::new();
        let (first, _) = read_line(line, &mut heap).unwrap();
        let text = written(&first, &heap);
        assert_eq!(text, line);
        let (second, _) = read_line(&text, &mut heap).unwrap();
        assert!(first.equals(&second, &heap, 100).unwrap());
    }
}

#[test]
fn write_adds_to_what_is_there() {
    let mut heap = Heap::new();
    let (list, _) = read_line("(a)", &mut heap).unwrap();
    let mut out = vec![Piece::Text("=> ".to_string())];
    list.write(&heap, 10, &mut out).unwrap();
    assert_eq!(out.len(), 4);
    assert!(matches!(&out[0], Piece::Text(s) if s == "=> "));
    assert!(matches!(&out[1], Piece::Text(s) if s == "("));
    assert!(matches!(&out[2], Piece::Text(s) if s == "a"));
    assert!(matches!(&out[3], Piece::Text(s) if s == ")"));
}
