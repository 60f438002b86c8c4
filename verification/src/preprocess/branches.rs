//! Which branches of a conditional are compiled.

use vstd::prelude::*;
use crate::error::{Error, Message};
use crate::preprocess::directive::{
    directive_of, process_constexpr, process_elif, process_else, process_endif, process_if,
    skip_cond, skip_directive, skip_extra, with_input, CondFrame, CondFrameContext, CondKind,
    Directive, POut, PpState,
};
use crate::preprocess::stream::line_len;
use crate::source::SourceSpan;
use crate::tokenize::PreToken;

verus! {

/// Whether a step goes on with the lines that follow, as part of the program.
pub open spec fn compiles(o: POut<()>, depth: nat) -> bool {
    &&& o.r is Ok
    &&& o.st.conds.len() == depth
    &&& o.st.conds.last().included
}

/// Whether a step skips what follows, up to the end of the branch.
pub open spec fn skips_from(o: POut<()>, n: nat, start: PpState) -> bool {
    o == skip_cond(n, start, 0)
}

/// An "#if" compiles its branch if its condition holds, and skips it otherwise.
pub proof fn if_branches_are_compiled_if_they_hold(n: nat, st: PpState, span: SourceSpan)
    requires
        n > 0,
    ensures
        ({
            let c = process_constexpr(n, st);
            let o = process_if(n, st, span);
            &&& c.r == Ok::<Option<bool>, Error>(Some(true)) ==> compiles(
                o,
                c.st.conds.len() + 1,
            ) && o.st.input == c.st.input
            &&& c.r == Ok::<Option<bool>, Error>(Some(false)) ==> exists|start: PpState|
                {
                    &&& #[trigger] skips_from(o, (n - 1) as nat, start)
                    &&& start.input == c.st.input
                    &&& start.conds.len() == c.st.conds.len() + 1
                    &&& !start.conds.last().included
                }
        }),
{
    reveal(process_if);
    let c = process_constexpr(n, st);
    let o = process_if(n, st, span);
    if c.r == Ok::<Option<bool>, Error>(Some(false)) {
        let frame = CondFrame {
            kind: CondKind::If,
            span,
            included: false,
            ctx: CondFrameContext::Then,
        };
        let start = PpState { conds: c.st.conds.push(frame), ..c.st };
        assert(skips_from(o, (n - 1) as nat, start));
    }
}

/// An "#else" compiles its branch if no branch before it was compiled, and skips it
/// otherwise.
pub proof fn else_branches_are_compiled_if_none_was(n: nat, st: PpState, span: SourceSpan)
    requires
        n > 0,
        st.conds.len() > 0,
        st.conds.last().ctx != CondFrameContext::Else,
    ensures
        ({
            let o = process_else(n, st, span);
            let rest = st.input.skip(line_len(st.input, 0) as int);
            &&& !st.conds.last().included ==> compiles(o, st.conds.len()) && o.st.input == rest
            &&& st.conds.last().included ==> exists|start: PpState|
                {
                    &&& #[trigger] skips_from(o, (n - 1) as nat, start)
                    &&& start.input == rest
                    &&& start.conds.len() == st.conds.len()
                    &&& start.conds.last().included
                }
        }),
{
    let o = process_else(n, st, span);
    let frame = st.conds.last();
    let entered = PpState {
        conds: st.conds.drop_last().push(
            CondFrame {
                included: true,
                ctx: CondFrameContext::Else,
                ..frame
            },
        ),
        ..st
    };
    let start = skip_extra(entered, Message::ExtraAfterElse);
    if frame.included {
        assert(skips_from(o, (n - 1) as nat, start));
    }
}

/// An "#elif" skips its branch, whatever its condition is, if a branch before it was
/// compiled. Otherwise it compiles it if the condition holds.
pub proof fn elif_branches_are_compiled_if_none_was(n: nat, st: PpState, span: SourceSpan)
    requires
        n > 0,
        st.conds.len() > 0,
        st.conds.last().ctx != CondFrameContext::Else,
    ensures
        ({
            let o = process_elif(n, st, span);
            let outer = PpState { conds: st.conds.drop_last(), ..st };
            let c = process_constexpr(n, outer);
            &&& st.conds.last().included ==> exists|start: PpState|
                {
                    &&& #[trigger] skips_from(o, (n - 1) as nat, start)
                    &&& start.input == st.input
                    &&& start.conds.len() == st.conds.len()
                    &&& start.conds.last().included
                }
            &&& !st.conds.last().included && c.r == Ok::<Option<bool>, Error>(Some(true))
                ==> compiles(o, c.st.conds.len() + 1) && o.st.input == c.st.input
            &&& !st.conds.last().included && c.r == Ok::<Option<bool>, Error>(Some(false))
                ==> exists|start: PpState|
                {
                    &&& #[trigger] skips_from(o, (n - 1) as nat, start)
                    &&& start.input == c.st.input
                    &&& !start.conds.last().included
                }
        }),
{
    let o = process_elif(n, st, span);
    let frame = CondFrame {
        ctx: CondFrameContext::Elif,
        ..st.conds.last()
    };
    let outer = PpState { conds: st.conds.drop_last(), ..st };
    let c = process_constexpr(n, outer);
    if st.conds.last().included {
        let start = PpState { conds: outer.conds.push(frame), ..outer };
        assert(skips_from(o, (n - 1) as nat, start));
    } else if c.r == Ok::<Option<bool>, Error>(Some(false)) {
        let start = PpState {
            conds: c.st.conds.push(
                CondFrame { included: false, ..frame },
            ),
            ..c.st
        };
        assert(skips_from(o, (n - 1) as nat, start));
    }
}

/// How a directive in a skipped block changes the nesting, where it does not end the
/// block.
pub open spec fn nested(directive: Option<Directive>, depth: int) -> int {
    match directive {
        Some(Directive::If) | Some(Directive::Ifdef) | Some(Directive::Ifndef) => depth + 1,
        Some(Directive::Endif) => depth - 1,
        _ => depth,
    }
}

/// A skipped block ends at its own "#elif", "#else", or "#endif" only: those of
/// conditionals within it are skipped with it.
pub proof fn skipped_blocks_end_at_their_own_directive(
    n: nat,
    st: PpState,
    span: SourceSpan,
    token: PreToken,
    depth: nat,
)
    requires
        n > 0,
        depth < u64::MAX,
    ensures
        ({
            let d = directive_of(st.x.names, token);
            let o = skip_directive(n, st, span, token, depth);
            let next = with_input(st, st.input.skip(line_len(st.input, 0) as int));
            let ends = depth == 0 && (d == Some(Directive::Elif) || d == Some(Directive::Else) || d
                == Some(Directive::Endif));
            &&& !ends ==> o == skip_cond((n - 1) as nat, next, nested(d, depth as int) as nat)
            &&& ends && d == Some(Directive::Elif) ==> o == process_elif(n, st, span)
            &&& ends && d == Some(Directive::Else) ==> o == process_else(n, st, span)
            &&& ends && d == Some(Directive::Endif) ==> o == process_endif(st, span)
        }),
{
}

} // verus!
