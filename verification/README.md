# ream

The front end of the Ream language, verified with Verus:

- `src/lexer`: the lexer, over Unicode grapheme clusters. `lex` states which
  token starts at each position (`token_at`) and that lexing is lossless.
- `src/parser`: parser combinators (`combinator.rs`) whose meaning is the spec
  function `outcome`; the grammar of Ream as combinator values
  (`grammar.rs`); the parser (`parser.rs`), whose `parse` builds a `rowan`
  green tree and is proved to give exactly the tree that the grammar
  describes, with one `ROOT` node holding every token of the text.
  Laws proved there: what each repetition leaves next (`law_repeated` and
  its siblings), that a stand-in runs the body it was made for
  (`law_stand_in`, `law_grammar_numbers_bound_once`), and that an expression
  ends at its last token (`lemma_expression_ends_on_token`).
- `src/core_erlang`: Core Erlang terms and their printing.
- `src/typechecker.rs`: the arenas of the type checker.
- `src/lang.rs`, `src/logger.rs`: the numbering of syntax kinds, and what
  the command line's logger shows.
- `app/`: the `ream` command line, its logger, and the language server.
