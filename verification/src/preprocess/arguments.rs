//! How the call of a function-like macro is split into its arguments.

use vstd::prelude::*;
use crate::error::{Error, Message};
use crate::preprocess::expand::{
    arg_of, args_from, escaped, no_args, paste, read_arg, spell, stringized, with_arg, ArgsView,
    Expansion,
};
use crate::source::SourceSpan;
use crate::tokenize::{PreToken, PreTokenKind, Punct};
use crate::types::Symbol;

verus! {

pub open spec fn is_punct(token: PreToken, punct: Punct) -> bool {
    token.kind == PreTokenKind::Punct(punct)
}

/// How many more "(" than ")" there are among the first `n` tokens.
pub open spec fn nesting(tokens: Seq<PreToken>, n: int) -> int
    decreases n,
{
    if n <= 0 {
        0
    } else if is_punct(tokens[n - 1], Punct::LParen) {
        nesting(tokens, n - 1) + 1
    } else if is_punct(tokens[n - 1], Punct::RParen) {
        nesting(tokens, n - 1) - 1
    } else {
        nesting(tokens, n - 1)
    }
}

/// Whether an argument that starts at the first token ends before token `k`: at
/// a ")" or, unless all arguments are asked for, at a ",", where every "(" since
/// the start is closed.
pub open spec fn ends_at(tokens: Seq<PreToken>, read_all: bool, k: int) -> bool {
    &&& 0 <= k < tokens.len()
    &&& nesting(tokens, k) == 0
    &&& is_punct(tokens[k], Punct::RParen) || (!read_all && is_punct(tokens[k], Punct::Comma))
}

/// Whether neither the argument nor the text ends before token `n`.
pub open spec fn goes_on(tokens: Seq<PreToken>, read_all: bool, n: int) -> bool {
    forall|k: int|
        0 <= k < n ==> !(#[trigger] ends_at(tokens, read_all, k)) && tokens[k].kind
            != PreTokenKind::Eof
}

proof fn argument_from(whole: Seq<PreToken>, read_all: bool, span: SourceSpan, i: int)
    requires
        0 <= i <= whole.len(),
        nesting(whole, i) >= 0,
        goes_on(whole, read_all, i),
        forall|k: int| 0 <= k <= i ==> #[trigger] nesting(whole, k) >= 0,
    ensures
        match read_arg(whole.skip(i), read_all, span, nesting(whole, i) as nat, whole.take(i)) {
            Ok((arg, rest)) => {
                &&& i <= arg.len() < whole.len()
                &&& whole == arg + rest
                &&& ends_at(whole, read_all, arg.len() as int)
                &&& goes_on(whole, read_all, arg.len() as int)
                &&& forall|k: int| 0 <= k <= arg.len() ==> #[trigger] nesting(whole, k) >= 0
            },
            Err(e) => {
                ||| goes_on(whole, read_all, whole.len() as int) && e == Error::Overflow
                ||| e == Error::Terminate(span, Message::UnterminatedMacroCall) && exists|k: int|
                    0 <= k < whole.len() && #[trigger] whole[k].kind == PreTokenKind::Eof
                        && goes_on(whole, read_all, k)
            },
        },
    decreases whole.len() - i,
{
    let input = whole.skip(i);
    let arg = whole.take(i);
    let depth = nesting(whole, i) as nat;
    if input.len() > 0 {
        let token = input[0];
        assert(token == whole[i]);
        if ends_at(whole, read_all, i) {
            assert(whole =~= arg + input);
        } else if token.kind == PreTokenKind::Eof {
            assert(whole[i].kind == PreTokenKind::Eof);
        } else {
            assert(!is_punct(token, Punct::RParen) || depth > 0);
            assert(nesting(whole, i + 1) >= 0);
            assert(input.skip(1) =~= whole.skip(i + 1));
            assert(arg.push(token) =~= whole.take(i + 1));
            argument_from(whole, read_all, span, i + 1);
        }
    }
}

/// An argument is what stands before the first "," or ")" (only ")" for the
/// remaining arguments) outside of parentheses that opened within it. So its
/// parentheses are balanced, and no part of it closes more than it opened. If
/// there is no such end, the call is unterminated.
pub proof fn arguments_are_balanced(input: Seq<PreToken>, read_all: bool, span: SourceSpan)
    ensures
        match read_arg(input, read_all, span, 0, Seq::empty()) {
            Ok((arg, rest)) => {
                &&& input == arg + rest
                &&& ends_at(input, read_all, arg.len() as int)
                &&& goes_on(input, read_all, arg.len() as int)
                &&& nesting(arg, arg.len() as int) == 0
                &&& forall|k: int| 0 <= k <= arg.len() ==> #[trigger] nesting(arg, k) >= 0
            },
            Err(e) => {
                ||| goes_on(input, read_all, input.len() as int) && e == Error::Overflow
                ||| e == Error::Terminate(span, Message::UnterminatedMacroCall) && exists|k: int|
                    0 <= k < input.len() && #[trigger] input[k].kind == PreTokenKind::Eof
                        && goes_on(input, read_all, k)
            },
        },
{
    assert(input.skip(0) =~= input);
    assert(input.take(0) =~= Seq::<PreToken>::empty());
    argument_from(input, read_all, span, 0);
    if let Ok((arg, rest)) = read_arg(input, read_all, span, 0, Seq::empty()) {
        assert(input.take(arg.len() as int) =~= arg);
        assert forall|k: int| 0 <= k <= arg.len() implies #[trigger] nesting(arg, k) == nesting(
            input,
            k,
        ) by {
            nesting_of_a_start(input, arg, k);
        }
    }
}

proof fn nesting_of_a_start(tokens: Seq<PreToken>, start: Seq<PreToken>, k: int)
    requires
        0 <= k <= start.len() <= tokens.len(),
        tokens.take(start.len() as int) == start,
    ensures
        nesting(start, k) == nesting(tokens, k),
    decreases k,
{
    if k > 0 {
        nesting_of_a_start(tokens, start, k - 1);
        assert(start[k - 1] == tokens[k - 1]);
    }
}

/// An argument is read wherever it ends before the text does.
pub proof fn arguments_that_end_are_read(
    input: Seq<PreToken>,
    read_all: bool,
    span: SourceSpan,
    n: int,
)
    requires
        ends_at(input, read_all, n),
        goes_on(input, read_all, n),
    ensures
        read_arg(input, read_all, span, 0, Seq::empty()) == Ok::<_, Error>(
            (input.take(n), input.skip(n)),
        ),
{
    arguments_are_balanced(input, read_all, span);
    match read_arg(input, read_all, span, 0, Seq::empty()) {
        Ok((arg, rest)) => {
            let m = arg.len() as int;
            if m < n {
                assert(ends_at(input, read_all, m));
            }
            if n < m {
                assert(ends_at(input, read_all, n));
            }
            assert(arg =~= input.take(n));
            assert(rest =~= input.skip(n));
        },
        Err(_) => {
            if goes_on(input, read_all, input.len() as int) {
                assert(ends_at(input, read_all, n));
            } else {
                let k = choose|k: int|
                    0 <= k < input.len() && #[trigger] input[k].kind == PreTokenKind::Eof
                        && goes_on(input, read_all, k);
                if k < n {
                    assert(!ends_at(input, read_all, k));
                } else if n < k {
                    assert(ends_at(input, read_all, n));
                }
            }
        },
    }
}

/// Where argument `k` starts, when each one but the last is followed by a ",".
pub open spec fn start_of(lists: Seq<Seq<PreToken>>, k: int) -> int
    decreases k,
{
    if k <= 0 {
        0
    } else {
        start_of(lists, k - 1) + lists[k - 1].len() + 1
    }
}

/// Whether some arguments stand one after the other at the start of a text, with
/// a token between each and the next.
pub open spec fn stand_in(lists: Seq<Seq<PreToken>>, n: int, tokens: Seq<PreToken>) -> bool {
    forall|k: int|
        0 <= k < n ==> {
            &&& 0 <= #[trigger] start_of(lists, k) <= start_of(lists, k) + lists[k].len()
                <= tokens.len()
            &&& tokens.subrange(start_of(lists, k), start_of(lists, k) + lists[k].len())
                == lists[k]
            &&& nesting(lists[k], lists[k].len() as int) == 0
            &&& k > 0 ==> is_punct(tokens[start_of(lists, k) - 1], Punct::Comma)
        }
}

/// Where the argument before `k` ends.
pub open spec fn end_of(lists: Seq<Seq<PreToken>>, k: int) -> int {
    if k <= 0 {
        0
    } else {
        start_of(lists, k) - 1
    }
}

proof fn start_depends_on_earlier(a: Seq<Seq<PreToken>>, b: Seq<Seq<PreToken>>, k: int)
    requires
        0 <= k <= a.len(),
        k <= b.len(),
        a.take(k) == b.take(k),
    ensures
        start_of(a, k) == start_of(b, k),
        start_of(a, k) >= 0,
    decreases k,
{
    if k > 0 {
        assert(a.take(k - 1) =~= a.take(k).take(k - 1));
        assert(b.take(k - 1) =~= b.take(k).take(k - 1));
        start_depends_on_earlier(a, b, k - 1);
        assert(a[k - 1] == a.take(k)[k - 1]);
        assert(b[k - 1] == b.take(k)[k - 1]);
    }
}

proof fn arguments_from(
    whole: Seq<PreToken>,
    params: Seq<Symbol>,
    index: int,
    args: ArgsView,
    input: Seq<PreToken>,
    span: SourceSpan,
)
    requires
        params.len() <= usize::MAX,
        0 <= index <= params.len(),
        args.lists.len() == index,
        stand_in(args.lists, index, whole),
        0 <= end_of(args.lists, index) <= whole.len(),
        input == whole.skip(end_of(args.lists, index)),
        index > 0 && input.len() > 0 ==> is_punct(input[0], Punct::Comma) || is_punct(
            input[0],
            Punct::RParen,
        ),
        forall|k: int|
            0 <= k < index && !(exists|j: int| k < j < index && params[j] == params[k])
                ==> args.params.contains_key((#[trigger] params[k]).0) && args.params[params[k].0]
                == k,
    ensures
        args_from(params, index, args, input, span) matches Ok((all, rest)) ==> {
            &&& all.lists.len() == params.len()
            &&& stand_in(all.lists, params.len() as int, whole)
            &&& end_of(all.lists, params.len() as int) <= whole.len()
            &&& rest == whole.skip(end_of(all.lists, params.len() as int))
            &&& forall|k: int|
                0 <= k < params.len() && !(exists|j: int| k < j < params.len() && params[j]
                    == params[k]) ==> all.params.contains_key((#[trigger] params[k]).0)
                    && all.params[params[k].0] == k
        },
    decreases params.len() - index,
{
    if index < params.len() && input.len() > 0 && !(index > 0 && is_punct(input[0], Punct::RParen)) {
        let at = if index > 0 {
            input.skip(1)
        } else {
            input
        };
        arguments_are_balanced(at, false, span);
        if let Ok((arg, rest)) = read_arg(at, false, span, 0, Seq::empty()) {
            let next = with_arg(args, params[index], arg);
            let lists = next.lists;
            let start = start_of(lists, index);
            assert(lists.take(index) =~= args.lists.take(index));
            start_depends_on_earlier(args.lists, lists, index);
            assert(start == end_of(args.lists, index) + (if index > 0 {
                1int
            } else {
                0
            }));
            assert(at =~= whole.skip(start));
            assert(rest =~= at.skip(arg.len() as int));
            assert(rest =~= whole.skip(start + arg.len()));
            assert forall|k: int| 0 <= k < index + 1 implies {
                &&& 0 <= #[trigger] start_of(lists, k) <= start_of(lists, k) + lists[k].len()
                    <= whole.len()
                &&& whole.subrange(start_of(lists, k), start_of(lists, k) + lists[k].len())
                    == lists[k]
                &&& nesting(lists[k], lists[k].len() as int) == 0
                &&& k > 0 ==> is_punct(whole[start_of(lists, k) - 1], Punct::Comma)
            } by {
                assert(lists.take(k) =~= args.lists.take(k));
                start_depends_on_earlier(args.lists, lists, k);
                if k < index {
                    assert(lists[k] == args.lists[k]);
                    assert(0 <= start_of(args.lists, k));
                } else {
                    assert(whole.subrange(start, start + arg.len()) =~= arg);
                    if k > 0 {
                        assert(input[0] == whole[start - 1]);
                    }
                }
            }
            assert(end_of(lists, index + 1) == start + arg.len());
            assert(rest.len() > 0 ==> rest[0] == at[arg.len() as int]);
            assert forall|k: int|
                0 <= k < index + 1 && !(exists|j: int| k < j < index + 1 && params[j] == params[k])
                implies next.params.contains_key((#[trigger] params[k]).0)
                && next.params[params[k].0] == k by {
                if k < index {
                    assert(params[index] != params[k]);
                    if exists|j: int| k < j < index && params[j] == params[k] {
                        let j = choose|j: int| k < j < index && params[j] == params[k];
                        assert(k < j < index + 1 && params[j] == params[k]);
                    }
                }
            }
            arguments_from(whole, params, index + 1, next, rest, span);
        }
    }
}

/// The arguments of a call stand in the text one after the other, each balanced
/// and followed by the "," before the next; and the argument of a parameter is the
/// one at its place.
pub proof fn calls_are_split_at_their_commas(
    params: Seq<Symbol>,
    input: Seq<PreToken>,
    span: SourceSpan,
    name: PreToken,
    k: int,
)
    requires
        params.len() <= usize::MAX,
        0 <= k < params.len(),
        forall|i: int, j: int| 0 <= i < j < params.len() ==> params[i] != params[j],
        name.kind == PreTokenKind::Ident(params[k]),
    ensures
        args_from(params, 0, no_args(), input, span) matches Ok((args, rest)) ==> {
            &&& args.lists.len() == params.len()
            &&& stand_in(args.lists, params.len() as int, input)
            &&& rest == input.skip(end_of(args.lists, params.len() as int))
            &&& arg_of(Some(args), name) == Some(args.lists[k])
        },
{
    assert(input.skip(0) =~= input);
    arguments_from(input, params, 0, no_args(), input, span);
    if let Ok((args, rest)) = args_from(params, 0, no_args(), input, span) {
        assert(!(exists|j: int| k < j < params.len() && params[j] == params[k]));
        assert(args.params[params[k].0] == k);
    }
}

/// Two tokens that were pasted are spelled one directly behind the other, and
/// stand where the first one stood.
pub proof fn pasted_tokens_are_spelled_together(
    st: Expansion,
    lhs: PreToken,
    rhs: PreToken,
    span: SourceSpan,
)
    requires
        st.spellings.len() < usize::MAX,
    ensures
        paste(st, lhs, rhs, span).r matches Ok(token) ==> {
            &&& spell(paste(st, lhs, rhs, span).st, token) == spell(st, lhs) + spell(st, rhs)
            &&& token.span == lhs.span
            &&& token.at_bol == lhs.at_bol
            &&& token.follows_space == lhs.follows_space
        },
{
    reveal(paste);
}

/// What is left of a text when a backslash only says that the byte behind it stands
/// for itself.
pub open spec fn unescaped(text: Seq<u8>) -> Seq<u8>
    decreases text.len(),
{
    if text.len() == 0 {
        Seq::empty()
    } else if text[0] == 92 && text.len() > 1 {
        seq![text[1]] + unescaped(text.skip(2))
    } else {
        seq![text[0]] + unescaped(text.skip(1))
    }
}

proof fn one_more_byte(bytes: Seq<u8>, n: nat, rest: Seq<u8>)
    requires
        n <= bytes.len(),
    ensures
        unescaped(escaped(bytes, n) + rest) == bytes.take(n as int) + unescaped(rest),
    decreases n,
{
    let before = bytes.take(n as int);
    if n == 0 {
        assert(escaped(bytes, n) + rest =~= rest);
        assert(before + unescaped(rest) =~= unescaped(rest));
    } else {
        let m = (n - 1) as nat;
        let b = bytes[m as int];
        let start = escaped(bytes, m);
        if b == 92 || b == 34 {
            let next = seq![92u8, b] + rest;
            assert(escaped(bytes, n) + rest =~= start + next);
            one_more_byte(bytes, m, next);
            assert(next.skip(2) =~= rest);
            assert(unescaped(next) =~= seq![b] + unescaped(rest));
        } else {
            let next = seq![b] + rest;
            assert(escaped(bytes, n) + rest =~= start + next);
            one_more_byte(bytes, m, next);
            assert(next.skip(1) =~= rest);
            assert(unescaped(next) =~= seq![b] + unescaped(rest));
        }
        assert(before + unescaped(rest) =~= bytes.take(m as int) + (seq![b] + unescaped(rest)));
    }
}

/// A spelling that is put into a string by "#" is read back from it.
pub proof fn stringized_spellings_are_read_back(bytes: Seq<u8>)
    ensures
        unescaped(escaped(bytes, bytes.len())) == bytes,
{
    one_more_byte(bytes, bytes.len(), Seq::empty());
    assert(escaped(bytes, bytes.len()) + Seq::<u8>::empty() =~= escaped(bytes, bytes.len()));
    assert(bytes.take(bytes.len() as int) + unescaped(Seq::empty()) =~= bytes);
}

/// The string that "#" makes of two tokens holds both, with one space between them
/// exactly if there was space between them, and none around them.
pub proof fn stringized_tokens_keep_their_space(st: Expansion, a: PreToken, b: PreToken)
    ensures
        ({
            let first = escaped(spell(st, a), spell(st, a).len());
            let second = escaped(spell(st, b), spell(st, b).len());
            &&& stringized(st, seq![a], 1) == first
            &&& stringized(st, seq![a, b], 2) == (if b.follows_space {
                first + seq![32u8] + second
            } else {
                first + second
            })
        }),
{
    reveal_with_fuel(stringized, 3);
    let first = escaped(spell(st, a), spell(st, a).len());
    assert(Seq::<u8>::empty() + first =~= first);
    assert(first.push(32u8) =~= first + seq![32u8]);
}

} // verus!
