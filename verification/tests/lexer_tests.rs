//! Lexer tests: token listings for whole programs, exact spans, and the
//! error positions and messages for programs that do not lex.

use starlark::lexer::lex_tokens;
use starlark::lexer::Token;

/// Lex a program and render one line per token: the description, then the
/// source slice it covers (line breaks shown as `\n`), trailing space
/// trimmed. Also checks the spans chain left to right and that converting
/// the line endings to `\r\n` changes no tokens.
fn lexer_listing(program: &str) -> String {
    let program = program.trim();
    let tokens = lex_tokens(program).unwrap();
    let mut pos = 0;
    for (from, _t, to) in &tokens {
        assert!(pos <= *from, "span went backwards: {} > {}", pos, from);
        assert!(from <= to);
        pos = *to;
    }
    let crlf = program.replace("\r\n", "\n").replace('\n', "\r\n");
    let with_r = lex_tokens(&crlf).unwrap();
    let plain: Vec<String> = tokens.iter().map(|(_, t, _)| t.describe()).collect();
    let wr: Vec<String> = with_r.iter().map(|(_, t, _)| t.describe()).collect();
    assert_eq!(plain, wr, "line endings changed the tokens");

    let descr: Vec<(usize, String, usize)> =
        tokens.into_iter().map(|(a, t, b)| (a, t.describe(), b)).collect();
    let width = descr.iter().map(|(_, t, _)| t.len()).max().unwrap_or(0);
    let chars: Vec<char> = program.chars().collect();
    let mut out = String::new();
    for (from, token, to) in &descr {
        let source: String = chars[*from..*to].iter().collect::<String>().replace('\n', "\\n");
        let line = format!("{token:<width$}  # {source}");
        out.push_str(line.trim_end());
        out.push('\n');
    }
    out
}

/// The tokens written back out compactly, space separated.
fn lex(program: &str) -> String {
    lex_tokens(program)
        .unwrap()
        .iter()
        .map(|(_, t, _)| t.unlex())
        .collect::<Vec<String>>()
        .join(" ")
}

/// Assert that the program marked with `!...!` fails to lex with an error
/// exactly over the marked range.
fn parse_fail(marked: &str) {
    let begin = marked.find('!').expect("first marker");
    let rest = &marked[begin + 1..];
    let second = rest.find('!').expect("second marker");
    let clean: String = marked.replacen('!', "", 2);
    let e = lex_tokens(&clean).expect_err("expected a lexing failure");
    assert_eq!((e.begin, e.end), (begin, begin + second), "wrong error range: {}", e.message);
}

#[test]
fn test_int_lit() {
    assert_eq!(
        lexer_listing("\n0 123\n0x7F 0x7d\n0B1011 0b1010\n0o755 0O753\n"),
        "\
integer literal '0'    # 0
integer literal '123'  # 123
new line               # \\n
integer literal '127'  # 0x7F
integer literal '125'  # 0x7d
new line               # \\n
integer literal '11'   # 0B1011
integer literal '10'   # 0b1010
new line               # \\n
integer literal '493'  # 0o755
integer literal '491'  # 0O753
new line               #
"
    );
    // Leading zeros are banned (confusion with implicit octal).
    parse_fail("x = !01!");
}

#[test]
fn test_indentation() {
    assert_eq!(
        lexer_listing("\n+\n  -\n      /\n      *\n  =\n    %\n      .\n+=\n"),
        "\
symbol '+'                # +
new line                  # \\n
new indentation block     #
symbol '-'                # -
new line                  # \\n
new indentation block     #
symbol '/'                # /
new line                  # \\n
symbol '*'                # *
new line                  # \\n
end of indentation block  #
symbol '='                # =
new line                  # \\n
new indentation block     #
symbol '%'                # %
new line                  # \\n
new indentation block     #
symbol '.'                # .
new line                  # \\n
end of indentation block  #
end of indentation block  #
end of indentation block  #
symbol '+='               # +=
new line                  #
"
    );
}

#[test]
fn test_symbols() {
    assert_eq!(
        lexer_listing(
            ", ; : += -= *= /= //= %= == != <= >= ** = < > - + * % / // . { } [ ] ( ) |\n\
             ,;:{}[]()|"
        ),
        "\
symbol ','    # ,
symbol ';'    # ;
symbol ':'    # :
symbol '+='   # +=
symbol '-='   # -=
symbol '*='   # *=
symbol '/='   # /=
symbol '//='  # //=
symbol '%='   # %=
symbol '=='   # ==
symbol '!='   # !=
symbol '<='   # <=
symbol '>='   # >=
symbol '**'   # **
symbol '='    # =
symbol '<'    # <
symbol '>'    # >
symbol '-'    # -
symbol '+'    # +
symbol '*'    # *
symbol '%'    # %
symbol '/'    # /
symbol '//'   # //
symbol '.'    # .
symbol '{'    # {
symbol '}'    # }
symbol '['    # [
symbol ']'    # ]
symbol '('    # (
symbol ')'    # )
symbol '|'    # |
new line      # \\n
symbol ','    # ,
symbol ';'    # ;
symbol ':'    # :
symbol '{'    # {
symbol '}'    # }
symbol '['    # [
symbol ']'    # ]
symbol '('    # (
symbol ')'    # )
symbol '|'    # |
new line      #
"
    );
}

#[test]
fn test_keywords() {
    assert_eq!(
        lexer_listing(
            "and else load break for not not  in continue if or def in pass elif return lambda"
        ),
        "\
keyword 'and'       # and
keyword 'else'      # else
keyword 'load'      # load
keyword 'break'     # break
keyword 'for'       # for
keyword 'not'       # not
keyword 'not'       # not
keyword 'in'        # in
keyword 'continue'  # continue
keyword 'if'        # if
keyword 'or'        # or
keyword 'def'       # def
keyword 'in'        # in
keyword 'pass'      # pass
keyword 'elif'      # elif
keyword 'return'    # return
keyword 'lambda'    # lambda
new line            #
"
    );
}

#[test]
fn test_number_collated_with_keywords_or_identifier() {
    assert_eq!(
        lexer_listing("0in 1and 2else 3load 4break 5for 6not 7not  in 8continue 10identifier11"),
        "\
integer literal '0'        # 0
keyword 'in'               # in
integer literal '1'        # 1
keyword 'and'              # and
integer literal '2'        # 2
keyword 'else'             # else
integer literal '3'        # 3
keyword 'load'             # load
integer literal '4'        # 4
keyword 'break'            # break
integer literal '5'        # 5
keyword 'for'              # for
integer literal '6'        # 6
keyword 'not'              # not
integer literal '7'        # 7
keyword 'not'              # not
keyword 'in'               # in
integer literal '8'        # 8
keyword 'continue'         # continue
integer literal '10'       # 10
identifier 'identifier11'  # identifier11
new line                   #
"
    );
}

#[test]
fn test_reserved() {
    let reserved =
        "as import is class nonlocal del raise except try finally while from with global yield"
            .split_whitespace();
    for x in reserved {
        parse_fail(&format!("!{}! = 1", x));
    }
}

#[test]
fn test_comment() {
    assert_eq!(
        lexer_listing(
            "\n# first comment\n  # second comment\na # third comment\n\n# But it should not eat everything\n[\n# comment inside list\n]\n"
        ),
        "\
comment ' first comment'                     # # first comment
comment ' second comment'                    # # second comment
identifier 'a'                               # a
comment ' third comment'                     # # third comment
new line                                     # \\n
new line                                     # \\n
comment ' But it should not eat everything'  # # But it should not eat everything
symbol '['                                   # [
comment ' comment inside list'               # # comment inside list
symbol ']'                                   # ]
new line                                     #
"
    );
}

#[test]
fn test_identifier() {
    assert_eq!(
        lexer_listing("a identifier CAPS _CAPS _0123"),
        "\
identifier 'a'           # a
identifier 'identifier'  # identifier
identifier 'CAPS'        # CAPS
identifier '_CAPS'       # _CAPS
identifier '_0123'       # _0123
new line                 #
"
    );
}

#[test]
fn test_string_lit() {
    assert_eq!(
        lex("'123' \"123\" '' \"\" '\\'' \"\\\"\" '\"' \"'\" '\\n' '\\w'"),
        "\"123\" \"123\" \"\" \"\" \"\'\" \"\\\"\" \"\\\"\" \"\'\" \"\\n\" \"\\\\w\" \n"
    );

    // Unfinished string literals.
    parse_fail("!'!\n'");
    parse_fail("!\"!\n\"");
    parse_fail("this = a + test + !r\"!");
    parse_fail("test + !\' of thing that!");
    parse_fail("test + !\' of thing that!\n'");

    // Multiline strings.
    assert_eq!(
        lex("'''''' '''\\n''' '''\n''' \"\"\"\"\"\" \"\"\"\\n\"\"\" \"\"\"\n\"\"\""),
        "\"\" \"\\n\" \"\\n\" \"\" \"\\n\" \"\\n\" \n"
    );
    // Raw strings.
    assert_eq!(
        lex("r'' r\"\" r'\\'' r\"\\\"\" r'\"' r\"'\" r'\\n'"),
        "\"\" \"\" \"\'\" \"\\\"\" \"\\\"\" \"\'\" \"\\\\n\" \n"
    );
}

#[test]
fn test_string_escape() {
    assert_eq!(
        lexer_listing("\n'\\0\\0\\1n'\n'\\0\\00\\000\\0000'\n'\\x000'\n'\\372x'\n"),
        "\
string literal \"\\0\\0\\u{1}n\"  # '\\0\\0\\1n'
new line                     # \\n
string literal \"\\0\\0\\0\\00\"   # '\\0\\00\\000\\0000'
new line                     # \\n
string literal \"\\00\"         # '\\x000'
new line                     # \\n
string literal \"úx\"          # '\\372x'
new line                     #
"
    );
    parse_fail("test 'more !\\xT!Z");
    parse_fail("test + 'more !\\UFFFFFFFF! overflows'");
    parse_fail("test 'more !\\x0y!abc'");
    parse_fail("test 'more !\\x0!");
}

#[test]
fn test_simple_example() {
    assert_eq!(
        lexer_listing(
            "\"\"\"A docstring.\"\"\"\n\ndef _impl(ctx):\n  # Print Hello, World!\n  print('Hello, World!')\n"
        ),
        "\
string literal \"A docstring.\"   # \"\"\"A docstring.\"\"\"
new line                        # \\n
new line                        # \\n
keyword 'def'                   # def
identifier '_impl'              # _impl
symbol '('                      # (
identifier 'ctx'                # ctx
symbol ')'                      # )
symbol ':'                      # :
new line                        # \\n
comment ' Print Hello, World!'  # # Print Hello, World!
new indentation block           #
identifier 'print'              # print
symbol '('                      # (
string literal \"Hello, World!\"  # 'Hello, World!'
symbol ')'                      # )
new line                        #
end of indentation block        #
"
    );
}

#[test]
fn test_escape_newline() {
    assert_eq!(
        lexer_listing("\na \\\nb\n"),
        "\
identifier 'a'  # a
identifier 'b'  # b
new line        #
"
    );
}

#[test]
fn test_lexer_multiline_triple() {
    assert_eq!(
        lexer_listing("\ncmd = \"\"\"A \\\n    B \\\n    C \\\n    \"\"\""),
        "\
identifier 'cmd'                     # cmd
symbol '='                           # =
string literal \"A     B     C     \"  # \"\"\"A \\\\n    B \\\\n    C \\\\n    \"\"\"
new line                             #
"
    );
}

#[test]
fn test_span() {
    let expected = vec![
        (0, Token::Newline, 1),
        (1, Token::Def, 4),
        (5, Token::Identifier("test".to_owned()), 9),
        (9, Token::OpeningRound, 10),
        (10, Token::Identifier("a".to_owned()), 11),
        (11, Token::ClosingRound, 12),
        (12, Token::Colon, 13),
        (13, Token::Newline, 14),
        (14, Token::Indent, 16),
        (16, Token::Identifier("fail".to_owned()), 20),
        (20, Token::OpeningRound, 21),
        (21, Token::Identifier("a".to_owned()), 22),
        (22, Token::ClosingRound, 23),
        (23, Token::Newline, 24),
        (24, Token::Newline, 25),
        (25, Token::Dedent, 25),
        (25, Token::Identifier("test".to_owned()), 29),
        (29, Token::OpeningRound, 30),
        (30, Token::Str("abc".to_owned()), 35),
        (35, Token::ClosingRound, 36),
        (36, Token::Newline, 37),
        (37, Token::Newline, 37),
    ];

    let actual = lex_tokens("\ndef test(a):\n  fail(a)\n\ntest(\"abc\")\n").unwrap();
    assert_eq!(expected, actual);
}

#[test]
fn test_lexer_final_comment() {
    assert_eq!(
        lexer_listing("\nx\n# test"),
        "\
identifier 'x'   # x
new line         # \\n
comment ' test'  # # test
new line         #
"
    );
}

#[test]
fn test_lexer_dedent() {
    assert_eq!(
        lexer_listing("\ndef stuff():\n  if 1:\n    if 1:\n      pass\n  pass\n"),
        "\
keyword 'def'             # def
identifier 'stuff'        # stuff
symbol '('                # (
symbol ')'                # )
symbol ':'                # :
new line                  # \\n
new indentation block     #
keyword 'if'              # if
integer literal '1'       # 1
symbol ':'                # :
new line                  # \\n
new indentation block     #
keyword 'if'              # if
integer literal '1'       # 1
symbol ':'                # :
new line                  # \\n
new indentation block     #
keyword 'pass'            # pass
new line                  # \\n
end of indentation block  #
end of indentation block  #
keyword 'pass'            # pass
new line                  #
end of indentation block  #
"
    );
}

#[test]
fn test_lexer_operators() {
    assert_eq!(
        lexer_listing("\n1+-2\n1+------2\n///==/+-\n"),
        "\
integer literal '1'  # 1
symbol '+'           # +
symbol '-'           # -
integer literal '2'  # 2
new line             # \\n
integer literal '1'  # 1
symbol '+'           # +
symbol '-'           # -
symbol '-'           # -
symbol '-'           # -
symbol '-'           # -
symbol '-'           # -
symbol '-'           # -
integer literal '2'  # 2
new line             # \\n
symbol '//'          # //
symbol '/='          # /=
symbol '='           # =
symbol '/'           # /
symbol '+'           # +
symbol '-'           # -
new line             #
"
    );
}

#[test]
fn test_lexer_error_messages() {
    // The common mistakes people make: are the messages and positions good?
    fn f(program: &str, msg: &str) {
        parse_fail(program);
        let clean = program.replacen('!', "", 2);
        let e = lex_tokens(&clean).expect_err("expected a lexing failure");
        assert!(
            e.message.contains(msg),
            "message {:?} does not mention {:?}",
            e.message,
            msg
        );
    }

    f("unknown !$!&%+ operator", "invalid input `$`");
    f("an !'incomplete string!\nends", "unfinished string literal");
    f(
        "an + 'invalid escape !\\x3 ! character'",
        "invalid string escape sequence `x3 `",
    );
    f(
        "leading_zero = !003! + 8",
        "integer cannot have leading 0, got `003`",
    );
    f(
        "reserved_word = !raise! + 1",
        "cannot use reserved keyword `raise`",
    );
}

#[test]
fn test_f_string() {
    assert_eq!(
        lexer_listing(
            "\nf\"basic1 {stuff1}\"\nf'basic2 {stuff2}'\n\n# Raw f-string\n\nfr'' fr\"\" fr'\\'' fr\"\\\"\" fr'\"' fr\"'\" fr'\\n'\n"
        ),
        "\
f-string \"basic1 {stuff1}\"  # f\"basic1 {stuff1}\"
new line                    # \\n
f-string \"basic2 {stuff2}\"  # f'basic2 {stuff2}'
new line                    # \\n
new line                    # \\n
comment ' Raw f-string'     # # Raw f-string
new line                    # \\n
f-string \"\"                 # fr''
f-string \"\"                 # fr\"\"
f-string \"'\"                # fr'\\''
f-string \"\\\"\"               # fr\"\\\"\"
f-string \"\\\"\"               # fr'\"'
f-string \"'\"                # fr\"'\"
f-string \"\\\\n\"              # fr'\\n'
new line                    #
"
    );
}

#[test]
fn test_float_lit() {
    // Float literals are recognised in all their spellings; the token keeps
    // the literal's text (the checker never computes with the value).
    assert_eq!(
        lexer_listing("\n0.0 0. .0\n1e10 1e+10 1e-10\n1.1e10 1.1e+10 1.1e-10\n0. .123 3.14 .2e3 1E+4\n"),
        "\
float literal '0.0'      # 0.0
float literal '0.'       # 0.
float literal '.0'       # .0
new line                 # \\n
float literal '1e10'     # 1e10
float literal '1e+10'    # 1e+10
float literal '1e-10'    # 1e-10
new line                 # \\n
float literal '1.1e10'   # 1.1e10
float literal '1.1e+10'  # 1.1e+10
float literal '1.1e-10'  # 1.1e-10
new line                 # \\n
float literal '0.'       # 0.
float literal '.123'     # .123
float literal '3.14'     # 3.14
float literal '.2e3'     # .2e3
float literal '1E+4'     # 1E+4
new line                 #
"
    );
}
