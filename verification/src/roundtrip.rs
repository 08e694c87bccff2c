//! Plain words joined by single spaces are tokenized into exactly those
//! words.

use vstd::prelude::*;
use crate::text::{is_blank, join_words, trim_end_at, trim_start_at, trimmed, white_space};
use crate::token::{flush, lex, tokenize_spec, ParseError, TokenModel};

verus! {

/// A character without a special meaning on a command line: no white space,
/// quote, backslash, pipe or `>`.
pub open spec fn is_plain(c: char) -> bool {
    !is_blank(c) && !white_space(c) && c != '\'' && c != '"' && c != '\\' && c != '|' && c != '>'
}

/// A word that is not empty and holds plain characters only.
pub open spec fn is_plain_word(w: Seq<char>) -> bool {
    w.len() > 0 && forall|k: int| 0 <= k < w.len() ==> is_plain(#[trigger] w[k])
}

/// One `Arg` token for each word.
pub open spec fn args_of(words: Seq<Seq<char>>) -> Seq<TokenModel> {
    words.map_values(|w: Seq<char>| TokenModel::Arg(w))
}

/// The texts of the `Arg` tokens among `tokens`, in order.
pub open spec fn arg_texts(tokens: Seq<TokenModel>) -> Seq<Seq<char>>
    decreases tokens.len(),
{
    if tokens.len() == 0 {
        Seq::empty()
    } else {
        let rest = arg_texts(tokens.drop_first());
        match tokens[0] {
            TokenModel::Arg(text) => seq![text] + rest,
            _ => rest,
        }
    }
}

/// Over a stretch of plain characters the tokenizer only extends the word
/// being read.
pub proof fn lemma_lex_plain_run(
    s: Seq<char>,
    i: int,
    n: nat,
    word: Seq<char>,
    out: Seq<TokenModel>,
)
    requires
        0 <= i,
        i + n <= s.len(),
        forall|k: int| i <= k < i + n ==> is_plain(#[trigger] s[k]),
    ensures
        lex(s, i, word, out) == lex(s, i + n, word + s.subrange(i, i + n), out),
    decreases n,
{
    if n == 0 {
        assert(word + s.subrange(i, i) =~= word);
    } else {
        assert(is_plain(s[i]));
        lemma_lex_plain_run(s, i + 1, (n - 1) as nat, word.push(s[i]), out);
        assert(word.push(s[i]) + s.subrange(i + 1, i + n) =~= word + s.subrange(i, i + n));
    }
}

/// Where the rest of the line is plain words joined by single spaces, the
/// tokenizer adds one `Arg` for each.
pub proof fn lemma_lex_words(s: Seq<char>, i: int, words: Seq<Seq<char>>, out: Seq<TokenModel>)
    requires
        0 <= i <= s.len(),
        s.subrange(i, s.len() as int) == join_words(words),
        forall|j: int| 0 <= j < words.len() ==> is_plain_word(#[trigger] words[j]),
    ensures
        lex(s, i, Seq::empty(), out) == Ok::<Seq<TokenModel>, ParseError>(out + args_of(words)),
    decreases words.len(),
{
    let rest = s.subrange(i, s.len() as int);
    if words.len() == 0 {
        assert(rest.len() == 0);
        assert(out + args_of(words) =~= out);
    } else {
        let w = words[0];
        let n = w.len();
        assert(is_plain_word(w));
        let tail = words.drop_first();
        assert(rest.len() >= n) by {
            if words.len() > 1 {
                assert(rest == w + seq![' '] + join_words(tail));
            }
        }
        assert forall|k: int| i <= k < i + n implies is_plain(#[trigger] s[k]) by {
            assert(s[k] == rest[k - i]);
            assert(rest[k - i] == w[k - i]);
        }
        lemma_lex_plain_run(s, i, n, Seq::empty(), out);
        assert(s.subrange(i, i + n) =~= w) by {
            assert forall|k: int| 0 <= k < n implies s.subrange(i, i + n)[k] == w[k] by {
                assert(s[i + k] == rest[k]);
            }
        }
        assert(Seq::<char>::empty() + s.subrange(i, i + n) =~= w);
        if words.len() == 1 {
            assert(i + n == s.len());
            assert(out + args_of(words) =~= out.push(TokenModel::Arg(w)));
        } else {
            assert(rest == w + seq![' '] + join_words(tail));
            assert(s[i + n] == rest[n as int]);
            assert(rest[n as int] == ' ');
            assert(is_blank(s[i + n]));
            assert(s.subrange(i + n + 1, s.len() as int) =~= join_words(tail)) by {
                assert forall|k: int| 0 <= k < join_words(tail).len() implies s.subrange(
                    i + n + 1,
                    s.len() as int,
                )[k] == join_words(tail)[k] by {
                    assert(s[i + n + 1 + k] == rest[n + 1 + k]);
                }
            }
            assert forall|j: int| 0 <= j < tail.len() implies is_plain_word(#[trigger] tail[j]) by {
                assert(tail[j] == words[j + 1]);
            }
            lemma_lex_words(s, i + n + 1, tail, flush(out, w));
            assert(flush(out, w) + args_of(tail) =~= out + args_of(words)) by {
                assert forall|k: int| 0 <= k < args_of(words).len() implies (flush(out, w)
                    + args_of(tail))[out.len() + k] == args_of(words)[k] by {
                    if k > 0 {
                        assert(tail[k - 1] == words[k]);
                    }
                }
            }
        }
    }
}

/// Plain words joined by single spaces begin and end with a plain character.
pub proof fn lemma_join_plain_ends(words: Seq<Seq<char>>)
    requires
        words.len() > 0,
        forall|j: int| 0 <= j < words.len() ==> is_plain_word(#[trigger] words[j]),
    ensures
        join_words(words).len() > 0,
        is_plain(join_words(words)[0]),
        is_plain(join_words(words).last()),
    decreases words.len(),
{
    assert(is_plain_word(words[0]));
    if words.len() > 1 {
        let tail = words.drop_first();
        assert forall|j: int| 0 <= j < tail.len() implies is_plain_word(#[trigger] tail[j]) by {
            assert(tail[j] == words[j + 1]);
        }
        lemma_join_plain_ends(tail);
        let line = join_words(words);
        assert(line == words[0] + seq![' '] + join_words(tail));
        assert(line[0] == words[0][0]);
        assert(line.last() == join_words(tail).last());
    } else {
        assert(words[0].last() == words[0][words[0].len() - 1]);
    }
}

/// The texts of the `Arg` tokens made of words are those words.
pub proof fn lemma_arg_texts_of_args(words: Seq<Seq<char>>)
    ensures
        arg_texts(args_of(words)) == words,
    decreases words.len(),
{
    if words.len() == 0 {
        assert(arg_texts(args_of(words)) =~= words);
    } else {
        lemma_arg_texts_of_args(words.drop_first());
        assert(args_of(words).drop_first() =~= args_of(words.drop_first()));
        assert(seq![words[0]] + words.drop_first() =~= words);
    }
}

/// A line built only from plain words separated by single spaces is
/// tokenized into one `Arg` for each word, in order; joining the texts of
/// those tokens with single spaces gives the line back.
pub proof fn lemma_tokenize_plain_words(words: Seq<Seq<char>>)
    requires
        forall|j: int| 0 <= j < words.len() ==> is_plain_word(#[trigger] words[j]),
    ensures
        tokenize_spec(join_words(words)) == Ok::<Seq<TokenModel>, ParseError>(args_of(words)),
        join_words(arg_texts(args_of(words))) == join_words(words),
{
    let line = join_words(words);
    lemma_arg_texts_of_args(words);
    if words.len() == 0 {
        assert(trimmed(line) =~= line);
    } else {
        lemma_join_plain_ends(words);
        assert(trim_start_at(line, 0) == 0);
        assert(!white_space(line[line.len() - 1]));
        assert(trim_end_at(line, 0, line.len() as int) == line.len());
        assert(trimmed(line) =~= line);
    }
    assert(line.subrange(0, line.len() as int) =~= line);
    lemma_lex_words(line, 0, words, Seq::empty());
    assert(Seq::<TokenModel>::empty() + args_of(words) =~= args_of(words));
}

} // verus!
