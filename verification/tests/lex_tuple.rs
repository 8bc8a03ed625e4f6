use ream::lexer::Lexer;

#[test]
fn lex_tuple_lex_tuple() {
    let mut lexer = Lexer::new(" { :awa, gwah } ");

    while let Some(token) = lexer.next() {
        println!("{token:?}");
    }
}
