//! Generated jumps take the way that the program takes.

use vstd::prelude::*;
use crate::ast::{node_ty, Node, NodeKind, Stmt, StmtKind};
use crate::codegen::machine::{machine_wf, put_instr, step, Instr, Machine, Reg};
use crate::codegen::scalars::{has_value, scalar, test_width, zero_is_found, Scalar};
use crate::codegen::text::{
    compare_zero, gen_do, gen_do_rule, gen_expr, gen_expr_rule, gen_for, gen_for_rule, gen_if,
    gen_if_rule, gen_loc, gen_logical, gen_logical_rule, gen_loop_cond, gen_loop_cond_rule, gen_opt,
    gen_opt_stmt, gen_stmt, jump_if_nonzero, jump_if_zero, nl, putd, puts, take_label, Gen, GenView,
};
use crate::error::Error;

verus! {

/// The places in the text that jumps lead to.
pub enum Way {
    Else,
    End,
    Taken,
    Missed,
    Begin,
    Numbered,
}

pub struct Mark {
    pub way: Way,
    pub number: int,
}

pub open spec fn mark_name(way: Way) -> &'static str {
    match way {
        Way::Else => ".L.else.",
        Way::End => ".L.end.",
        Way::Taken => ".L.true.",
        Way::Missed => ".L.false.",
        Way::Begin => ".L.begin.",
        Way::Numbered => ".L..",
    }
}

pub open spec fn jump_name(way: Way) -> &'static str {
    match way {
        Way::Else => "  jmp .L.else.",
        Way::End => "  jmp .L.end.",
        Way::Taken => "  jmp .L.true.",
        Way::Missed => "  jmp .L.false.",
        Way::Begin => "  jmp .L.begin.",
        Way::Numbered => "  jmp .L..",
    }
}

/// A line of the text, or a part of it that was generated for an expression or a
/// statement within.
pub enum Line {
    Do(Instr),
    Part(int),
    Label(Mark),
    Jump(Mark),
    JumpIfZero(Mark),
    JumpIfNonzero(Mark),
}

/// The text with one more line. Where it ends behind each part is given.
pub open spec fn put_line(g: Gen, line: Line, ends: Seq<Gen>) -> Gen {
    match line {
        Line::Do(instr) => put_instr(g, instr),
        Line::Part(k) => ends[k],
        Line::Label(mark) => nl(puts(putd(puts(g, mark_name(mark.way)), mark.number), ":")),
        Line::Jump(mark) => nl(putd(puts(g, jump_name(mark.way)), mark.number)),
        Line::JumpIfZero(mark) => nl(
            putd(puts(puts(g, "  je "), mark_name(mark.way)), mark.number),
        ),
        Line::JumpIfNonzero(mark) => nl(
            putd(puts(puts(g, "  jne "), mark_name(mark.way)), mark.number),
        ),
    }
}

/// The text with the first `n` lines.
#[verifier::opaque]
pub open spec fn printed(g: Gen, lines: Seq<Line>, ends: Seq<Gen>, n: nat) -> Gen
    decreases n,
{
    if n == 0 {
        g
    } else {
        put_line(printed(g, lines, ends, (n - 1) as nat), lines[n - 1], ends)
    }
}

/// The state behind a fresh label that was taken.
pub open spec fn after_label(g: Gen) -> Gen {
    take_label(g)->Ok_0.0
}

/// What a part of the text does.
pub type Effect = spec_fn(Machine) -> Option<Machine>;

/// Where a label stands.
#[verifier::opaque]
pub open spec fn target(lines: Seq<Line>, mark: Mark, from: int) -> int
    decreases lines.len() - from,
{
    if from >= lines.len() || lines[from] == Line::Label(mark) {
        from
    } else {
        target(lines, mark, from + 1)
    }
}

/// What the lines do from line `at` on, in at most the given number of steps.
#[verifier::opaque]
pub open spec fn go(
    lines: Seq<Line>,
    effects: Seq<Effect>,
    at: int,
    m: Machine,
    steps: nat,
) -> Option<Machine>
    decreases steps,
{
    if at >= lines.len() {
        Some(m)
    } else if steps == 0 {
        None
    } else {
        let left = (steps - 1) as nat;
        match lines[at] {
            Line::Do(instr) => match step(instr, m) {
                None => None,
                Some(m) => go(lines, effects, at + 1, m, left),
            },
            Line::Part(k) => match effects[k](m) {
                None => None,
                Some(m) => go(lines, effects, at + 1, m, left),
            },
            Line::Label(_) => go(lines, effects, at + 1, m, left),
            Line::Jump(mark) => go(lines, effects, target(lines, mark, 0), m, left),
            Line::JumpIfZero(mark) => if m.flags.zero {
                go(lines, effects, target(lines, mark, 0), m, left)
            } else {
                go(lines, effects, at + 1, m, left)
            },
            Line::JumpIfNonzero(mark) => if !m.flags.zero {
                go(lines, effects, target(lines, mark, 0), m, left)
            } else {
                go(lines, effects, at + 1, m, left)
            },
        }
    }
}

/// What remains to be done after one line that can be left.
pub open spec fn gone(
    lines: Seq<Line>,
    effects: Seq<Effect>,
    at: int,
    m: Machine,
    left: nat,
) -> Option<Machine> {
    match lines[at] {
        Line::Do(instr) => match step(instr, m) {
            None => None,
            Some(m) => go(lines, effects, at + 1, m, left),
        },
        Line::Part(k) => match effects[k](m) {
            None => None,
            Some(m) => go(lines, effects, at + 1, m, left),
        },
        Line::Label(_) => go(lines, effects, at + 1, m, left),
        Line::Jump(mark) => go(lines, effects, target(lines, mark, 0), m, left),
        Line::JumpIfZero(mark) => if m.flags.zero {
            go(lines, effects, target(lines, mark, 0), m, left)
        } else {
            go(lines, effects, at + 1, m, left)
        },
        Line::JumpIfNonzero(mark) => if !m.flags.zero {
            go(lines, effects, target(lines, mark, 0), m, left)
        } else {
            go(lines, effects, at + 1, m, left)
        },
    }
}

proof fn one_line(lines: Seq<Line>, effects: Seq<Effect>, at: int, m: Machine, left: nat)
    requires
        0 <= at < lines.len(),
    ensures
        go(lines, effects, at, m, left + 1) == gone(lines, effects, at, m, left),
{
    reveal(go);
}

proof fn no_line(lines: Seq<Line>, effects: Seq<Effect>, at: int, m: Machine, steps: nat)
    requires
        at >= lines.len(),
    ensures
        go(lines, effects, at, m, steps) == Some(m),
{
    reveal(go);
}

proof fn label_is_found_from(lines: Seq<Line>, mark: Mark, from: int, k: int)
    requires
        0 <= from <= k < lines.len(),
        lines[k] == Line::Label(mark),
        forall|j: int| from <= j < k ==> #[trigger] lines[j] != Line::Label(mark),
    ensures
        target(lines, mark, from) == k,
    decreases k - from,
{
    reveal(target);
    if from < k {
        assert(lines[from] != Line::Label(mark));
        label_is_found_from(lines, mark, from + 1, k);
    }
}

proof fn one_line_is_printed(g: Gen, lines: Seq<Line>, ends: Seq<Gen>, n: nat)
    ensures
        printed(g, lines, ends, n + 1) == put_line(
            printed(g, lines, ends, n),
            lines[n as int],
            ends,
        ),
        printed(g, lines, ends, 0) == g,
{
    reveal(printed);
}

/// A machine after a value in `%rax` was tested for zero.
pub open spec fn tested(m: Machine, s: Scalar) -> Machine {
    step(Instr::CmpZero(test_width(s)), m).unwrap()
}

/// Testing for zero changes nothing but what is known of the value.
proof fn testing_tells(m: Machine, s: Scalar, v: int)
    requires
        machine_wf(m),
        has_value(m, s, v),
    ensures
        step(Instr::CmpZero(test_width(s)), m) == Some(tested(m, s)),
        tested(m, s).flags.zero <==> v == 0,
        tested(m, s).regs == m.regs,
        tested(m, s).mem == m.mem,
        tested(m, s).xmm == m.xmm,
{
    zero_is_found(m, s, v);
}

/// Whether an effect leaves a value of a type in `%rax`.
pub open spec fn leaves(effect: Effect, m: Machine, s: Scalar, v: int) -> bool {
    &&& effect(m) is Some
    &&& machine_wf(effect(m).unwrap())
    &&& has_value(effect(m).unwrap(), s, v)
}

pub open spec fn if_lines(n: int, s: Scalar) -> Seq<Line> {
    let other = Mark { way: Way::Else, number: n };
    let end = Mark { way: Way::End, number: n };
    seq![
        Line::Part(0),
        Line::Do(Instr::CmpZero(test_width(s))),
        Line::JumpIfZero(other),
        Line::Part(1),
        Line::Jump(end),
        Line::Label(other),
        Line::Part(2),
        Line::Label(end),
    ]
}

/// Whether lines do the second part if the first one leaves a value that is not
/// zero, and else the third part, and nothing more.
pub open spec fn chooses(lines: Seq<Line>, s: Scalar) -> bool {
    forall|effects: Seq<Effect>, m: Machine, v: int|
        #![trigger leaves(effects[0], m, s, v), go(lines, effects, 0, m, 9)]
        leaves(effects[0], m, s, v) ==> go(lines, effects, 0, m, 9) == (if v != 0 {
            effects[1](tested(effects[0](m).unwrap(), s))
        } else {
            effects[2](tested(effects[0](m).unwrap(), s))
        })
}

proof fn if_lines_choose(n: int, s: Scalar)
    ensures
        chooses(if_lines(n, s), s),
{
    let lines = if_lines(n, s);
    assert forall|effects: Seq<Effect>, m: Machine, v: int|
        #![trigger leaves(effects[0], m, s, v), go(lines, effects, 0, m, 9)]
        leaves(effects[0], m, s, v) implies go(lines, effects, 0, m, 9) == (if v != 0 {
        effects[1](tested(effects[0](m).unwrap(), s))
    } else {
        effects[2](tested(effects[0](m).unwrap(), s))
    }) by {
        let m1 = effects[0](m).unwrap();
        let t = tested(m1, s);
        testing_tells(m1, s, v);
        label_is_found_from(lines, lines[5]->Label_0, 0, 5);
        label_is_found_from(lines, lines[7]->Label_0, 0, 7);
        one_line(lines, effects, 0, m, 8);
        one_line(lines, effects, 1, m1, 7);
        one_line(lines, effects, 2, t, 6);
        if v != 0 {
            one_line(lines, effects, 3, t, 5);
            if let Some(m2) = effects[1](t) {
                one_line(lines, effects, 4, m2, 4);
                one_line(lines, effects, 7, m2, 3);
                no_line(lines, effects, 8, m2, 3);
            }
        } else {
            one_line(lines, effects, 5, t, 5);
            one_line(lines, effects, 6, t, 4);
            if let Some(m2) = effects[2](t) {
                one_line(lines, effects, 7, m2, 3);
                no_line(lines, effects, 8, m2, 3);
            }
        }
    }
}

/// The parts of an if statement that its text is made of, with a fresh label: the
/// condition and both branches stand where they are run.
pub open spec fn if_parts(
    env: GenView,
    g: Gen,
    lines: Seq<Line>,
    ends: Seq<Gen>,
    cond: Node,
    then_branch: Stmt,
    else_branch: Option<Box<Stmt>>,
) -> bool {
    &&& gen_expr(env, printed(g, lines, ends, 0), cond) == Ok::<Gen, Error>(ends[0])
    &&& gen_stmt(env, printed(g, lines, ends, 3), then_branch) == Ok::<Gen, Error>(ends[1])
    &&& gen_opt_stmt(env, printed(g, lines, ends, 6), else_branch) == Ok::<Gen, Error>(ends[2])
}

/// An if statement runs its first branch if the condition is not zero, and else its
/// second.
pub proof fn if_statements_choose(
    env: GenView,
    g: Gen,
    stmt: Stmt,
    cond: Node,
    then_branch: Stmt,
    else_branch: Option<Box<Stmt>>,
)
    requires
        stmt.kind == (StmtKind::If { cond, then_branch: Box::new(then_branch), else_branch }),
        scalar(env.types, node_ty(cond)) is Some,
        gen_if(env, g, stmt) is Ok,
    ensures
        exists|lines: Seq<Line>, ends: Seq<Gen>|
            {
                &&& gen_if(env, g, stmt)->Ok_0 == #[trigger] printed(
                    after_label(g),
                    lines,
                    ends,
                    lines.len(),
                )
                &&& if_parts(
                    env,
                    after_label(g),
                    lines,
                    ends,
                    cond,
                    then_branch,
                    else_branch,
                )
                &&& chooses(lines, scalar(env.types, node_ty(cond)).unwrap())
            },
{
    let s = scalar(env.types, node_ty(cond)).unwrap();
    let (g0, n) = take_label(g)->Ok_0;
    let lines = if_lines(n as int, s);
    if_lines_choose(n as int, s);
    assert(gen_if(env, g, stmt) == gen_if_rule(env, g, stmt));
    reveal(compare_zero);
    reveal(jump_if_zero);
    let c = gen_expr(env, g0, cond)->Ok_0;
    let ends0 = seq![c, c, c];
    let g3 = put_line(
        put_line(c, lines[1], ends0),
        lines[2],
        ends0,
    );
    let t = gen_stmt(env, g3, then_branch)->Ok_0;
    let g6 = put_line(put_line(t, lines[4], ends0), lines[5], ends0);
    let e = gen_opt_stmt(env, g6, else_branch)->Ok_0;
    let ends = seq![c, t, e];
    one_line_is_printed(g0, lines, ends, 0);
    one_line_is_printed(g0, lines, ends, 1);
    one_line_is_printed(g0, lines, ends, 2);
    one_line_is_printed(g0, lines, ends, 3);
    one_line_is_printed(g0, lines, ends, 4);
    one_line_is_printed(g0, lines, ends, 5);
    one_line_is_printed(g0, lines, ends, 6);
    one_line_is_printed(g0, lines, ends, 7);
    assert(printed(g0, lines, ends, 3) == g3);
    assert(printed(g0, lines, ends, 6) == g6);
    assert(gen_if(env, g, stmt)->Ok_0 == printed(g0, lines, ends, lines.len()));
}

/// The same of a conditional expression, whose branches are expressions.
pub open spec fn conditional_parts(
    env: GenView,
    g: Gen,
    lines: Seq<Line>,
    ends: Seq<Gen>,
    cond: Node,
    then_expr: Node,
    else_expr: Node,
) -> bool {
    &&& gen_expr(env, printed(g, lines, ends, 0), cond) == Ok::<Gen, Error>(ends[0])
    &&& gen_expr(env, printed(g, lines, ends, 3), then_expr) == Ok::<Gen, Error>(ends[1])
    &&& gen_expr(env, printed(g, lines, ends, 6), else_expr) == Ok::<Gen, Error>(ends[2])
}

/// A conditional expression evaluates what stands behind "?" if its condition is
/// not zero, and else what stands behind ":".
pub proof fn conditional_expressions_choose(
    env: GenView,
    g: Gen,
    node: Node,
    cond: Node,
    then_expr: Node,
    else_expr: Node,
)
    requires
        node.kind == (NodeKind::Conditional {
            cond: Box::new(cond),
            then_expr: Box::new(then_expr),
            else_expr: Box::new(else_expr),
        }),
        scalar(env.types, node_ty(cond)) is Some,
        gen_expr(env, g, node) is Ok,
    ensures
        exists|lines: Seq<Line>, ends: Seq<Gen>|
            {
                &&& gen_expr(env, g, node)->Ok_0 == #[trigger] printed(
                    take_label(gen_loc(env, g, node.span))->Ok_0.0,
                    lines,
                    ends,
                    lines.len(),
                )
                &&& conditional_parts(
                    env,
                    take_label(gen_loc(env, g, node.span))->Ok_0.0,
                    lines,
                    ends,
                    cond,
                    then_expr,
                    else_expr,
                )
                &&& chooses(lines, scalar(env.types, node_ty(cond)).unwrap())
            },
{
    let s = scalar(env.types, node_ty(cond)).unwrap();
    assert(gen_expr(env, g, node) == gen_expr_rule(env, g, node));
    let (g0, n) = take_label(gen_loc(env, g, node.span))->Ok_0;
    let lines = if_lines(n as int, s);
    if_lines_choose(n as int, s);
    reveal(compare_zero);
    reveal(jump_if_zero);
    let c = gen_expr(env, g0, cond)->Ok_0;
    let ends0 = seq![c, c, c];
    let g3 = put_line(put_line(c, lines[1], ends0), lines[2], ends0);
    let t = gen_expr(env, g3, then_expr)->Ok_0;
    let g6 = put_line(put_line(t, lines[4], ends0), lines[5], ends0);
    let e = gen_expr(env, g6, else_expr)->Ok_0;
    let ends = seq![c, t, e];
    one_line_is_printed(g0, lines, ends, 0);
    one_line_is_printed(g0, lines, ends, 1);
    one_line_is_printed(g0, lines, ends, 2);
    one_line_is_printed(g0, lines, ends, 3);
    one_line_is_printed(g0, lines, ends, 4);
    one_line_is_printed(g0, lines, ends, 5);
    one_line_is_printed(g0, lines, ends, 6);
    one_line_is_printed(g0, lines, ends, 7);
    assert(printed(g0, lines, ends, 3) == g3);
    assert(printed(g0, lines, ends, 6) == g6);
    assert(gen_expr(env, g, node)->Ok_0 == printed(g0, lines, ends, lines.len()));
}

/// The lines of "&&" if true, else of "||".
pub open spec fn logical_lines(is_and: bool, n: int, l: Scalar, r: Scalar) -> Seq<Line> {
    let decided = Mark {
        way: if is_and {
            Way::Missed
        } else {
            Way::Taken
        },
        number: n,
    };
    let end = Mark { way: Way::End, number: n };
    let jump = if is_and {
        Line::JumpIfZero(decided)
    } else {
        Line::JumpIfNonzero(decided)
    };
    seq![
        Line::Part(0),
        Line::Do(Instr::CmpZero(test_width(l))),
        jump,
        Line::Part(1),
        Line::Do(Instr::CmpZero(test_width(r))),
        jump,
        Line::Do(
            if is_and {
                Instr::RaxOne
            } else {
                Instr::RaxZero
            },
        ),
        Line::Jump(end),
        Line::Label(decided),
        Line::Do(
            if is_and {
                Instr::RaxZero
            } else {
                Instr::RaxOne
            },
        ),
        Line::Label(end),
    ]
}

/// A machine with a truth value in `%rax`.
pub open spec fn with_truth(m: Machine, truth: bool) -> Machine {
    Machine {
        regs: m.regs.insert(
            Reg::Rax,
            if truth {
                1
            } else {
                0
            },
        ),
        ..m
    }
}

pub open spec fn tells_truth(before: Machine, after: Option<Machine>, truth: bool) -> bool {
    after == Some(with_truth(before, truth))
}

/// The end of a logical operator that was decided early.
proof fn logical_is_decided(
    lines: Seq<Line>,
    effects: Seq<Effect>,
    m: Machine,
    steps: nat,
    truth: bool,
)
    requires
        lines.len() == 11,
        lines[8] is Label,
        lines[9] == Line::Do(
            if truth {
                Instr::RaxOne
            } else {
                Instr::RaxZero
            },
        ),
        lines[10] is Label,
        steps >= 3,
    ensures
        go(lines, effects, 8, m, steps) == Some(with_truth(m, truth)),
{
    let last = with_truth(m, truth);
    one_line(lines, effects, 8, m, (steps - 1) as nat);
    one_line(lines, effects, 9, m, (steps - 2) as nat);
    one_line(lines, effects, 10, last, (steps - 3) as nat);
    no_line(lines, effects, 11, last, (steps - 3) as nat);
}

/// Whether lines do the first part, and the second one only if the first does not
/// decide; and leave whether both values are not zero, or whether one is.
pub open spec fn decides(lines: Seq<Line>, is_and: bool, l: Scalar, r: Scalar) -> bool {
    &&& forall|effects: Seq<Effect>, m: Machine, a: int|
        #![trigger leaves(effects[0], m, l, a), go(lines, effects, 0, m, 12)]
        leaves(effects[0], m, l, a) && (a == 0) == is_and ==> tells_truth(
            tested(effects[0](m).unwrap(), l),
            go(lines, effects, 0, m, 12),
            !is_and,
        )
    &&& forall|effects: Seq<Effect>, m: Machine, a: int, b: int|
        #![
            trigger leaves(effects[0], m, l, a),
            leaves(effects[1], tested(effects[0](m).unwrap(), l), r, b),
            go(lines, effects, 0, m, 12),
        ]
        leaves(effects[0], m, l, a) && (a == 0) != is_and && leaves(
            effects[1],
            tested(effects[0](m).unwrap(), l),
            r,
            b,
        ) ==> tells_truth(
            tested(effects[1](tested(effects[0](m).unwrap(), l)).unwrap(), r),
            go(lines, effects, 0, m, 12),
            b != 0,
        )
}

proof fn logical_starts(
    is_and: bool,
    n: int,
    l: Scalar,
    r: Scalar,
    effects: Seq<Effect>,
    m: Machine,
    a: int,
)
    requires
        leaves(effects[0], m, l, a),
    ensures
        go(logical_lines(is_and, n, l, r), effects, 0, m, 12) == (if (a == 0) == is_and {
            Some(with_truth(tested(effects[0](m).unwrap(), l), !is_and))
        } else {
            go(
                logical_lines(is_and, n, l, r),
                effects,
                3,
                tested(effects[0](m).unwrap(), l),
                9,
            )
        }),
{
    let lines = logical_lines(is_and, n, l, r);
    let m1 = effects[0](m).unwrap();
    let first = tested(m1, l);
    testing_tells(m1, l, a);
    label_is_found_from(lines, lines[8]->Label_0, 0, 8);
    one_line(lines, effects, 0, m, 11);
    one_line(lines, effects, 1, m1, 10);
    one_line(lines, effects, 2, first, 9);
    if (a == 0) == is_and {
        logical_is_decided(lines, effects, first, 9, !is_and);
    }
}

proof fn logical_ends(
    is_and: bool,
    n: int,
    l: Scalar,
    r: Scalar,
    effects: Seq<Effect>,
    m: Machine,
    b: int,
)
    requires
        leaves(effects[1], m, r, b),
    ensures
        go(logical_lines(is_and, n, l, r), effects, 3, m, 9) == Some(
            with_truth(tested(effects[1](m).unwrap(), r), b != 0),
        ),
{
    let lines = logical_lines(is_and, n, l, r);
    let m2 = effects[1](m).unwrap();
    let second = tested(m2, r);
    testing_tells(m2, r, b);
    label_is_found_from(lines, lines[8]->Label_0, 0, 8);
    label_is_found_from(lines, lines[10]->Label_0, 0, 10);
    one_line(lines, effects, 3, m, 8);
    one_line(lines, effects, 4, m2, 7);
    one_line(lines, effects, 5, second, 6);
    if (b == 0) == is_and {
        logical_is_decided(lines, effects, second, 6, !is_and);
    } else {
        let last = with_truth(second, is_and);
        one_line(lines, effects, 6, second, 5);
        one_line(lines, effects, 7, last, 4);
        one_line(lines, effects, 10, last, 3);
        no_line(lines, effects, 11, last, 3);
    }
}

proof fn logical_lines_decide(is_and: bool, n: int, l: Scalar, r: Scalar)
    ensures
        decides(logical_lines(is_and, n, l, r), is_and, l, r),
{
    let lines = logical_lines(is_and, n, l, r);
    assert forall|effects: Seq<Effect>, m: Machine, a: int|
        #![trigger leaves(effects[0], m, l, a), go(lines, effects, 0, m, 12)]
        leaves(effects[0], m, l, a) && (a == 0) == is_and implies tells_truth(
        tested(effects[0](m).unwrap(), l),
        go(lines, effects, 0, m, 12),
        !is_and,
    ) by {
        logical_starts(is_and, n, l, r, effects, m, a);
    }
    assert forall|effects: Seq<Effect>, m: Machine, a: int, b: int|
        #![
            trigger leaves(effects[0], m, l, a),
            leaves(effects[1], tested(effects[0](m).unwrap(), l), r, b),
            go(lines, effects, 0, m, 12),
        ]
        leaves(effects[0], m, l, a) && (a == 0) != is_and && leaves(
            effects[1],
            tested(effects[0](m).unwrap(), l),
            r,
            b,
        ) implies tells_truth(
        tested(effects[1](tested(effects[0](m).unwrap(), l)).unwrap(), r),
        go(lines, effects, 0, m, 12),
        b != 0,
    ) by {
        logical_starts(is_and, n, l, r, effects, m, a);
        logical_ends(is_and, n, l, r, effects, tested(effects[0](m).unwrap(), l), b);
    }
}

/// Whether the text of a logical operator is made of some lines.
pub open spec fn logical_text(
    env: GenView,
    g: Gen,
    node: Node,
    lhs: Node,
    rhs: Node,
    lines: Seq<Line>,
    ends: Seq<Gen>,
) -> bool {
    &&& gen_logical(env, g, node)->Ok_0 == printed(after_label(g), lines, ends, lines.len())
    &&& gen_expr(env, printed(after_label(g), lines, ends, 0), lhs) == Ok::<Gen, Error>(ends[0])
    &&& gen_expr(env, printed(after_label(g), lines, ends, 3), rhs) == Ok::<Gen, Error>(ends[1])
}

proof fn and_is_printed(env: GenView, g: Gen, node: Node, lhs: Node, rhs: Node)
    requires
        node.kind == (NodeKind::LogicalAnd { lhs: Box::new(lhs), rhs: Box::new(rhs) }),
        scalar(env.types, node_ty(lhs)) is Some,
        scalar(env.types, node_ty(rhs)) is Some,
        gen_logical(env, g, node) is Ok,
    ensures
        exists|ends: Seq<Gen>| #[trigger]
            logical_text(
                env,
                g,
                node,
                lhs,
                rhs,
                logical_lines(
                    true,
                    take_label(g)->Ok_0.1 as int,
                    scalar(env.types, node_ty(lhs)).unwrap(),
                    scalar(env.types, node_ty(rhs)).unwrap(),
                ),
                ends,
            ),
{
    let l = scalar(env.types, node_ty(lhs)).unwrap();
    let r = scalar(env.types, node_ty(rhs)).unwrap();
    assert(gen_logical(env, g, node) == gen_logical_rule(env, g, node));
    let (g0, n) = take_label(g)->Ok_0;
    let lines = logical_lines(true, n as int, l, r);
    reveal(compare_zero);
    reveal(jump_if_zero);
    let c = gen_expr(env, g0, lhs)->Ok_0;
    let g3 = put_line(put_line(c, lines[1], Seq::empty()), lines[2], Seq::empty());
    let d = gen_expr(env, g3, rhs)->Ok_0;
    let ends = seq![c, d];
    one_line_is_printed(g0, lines, ends, 0);
    one_line_is_printed(g0, lines, ends, 1);
    one_line_is_printed(g0, lines, ends, 2);
    one_line_is_printed(g0, lines, ends, 3);
    one_line_is_printed(g0, lines, ends, 4);
    one_line_is_printed(g0, lines, ends, 5);
    one_line_is_printed(g0, lines, ends, 6);
    one_line_is_printed(g0, lines, ends, 7);
    one_line_is_printed(g0, lines, ends, 8);
    one_line_is_printed(g0, lines, ends, 9);
    one_line_is_printed(g0, lines, ends, 10);
    assert(printed(g0, lines, ends, 3) == g3);
    assert(logical_text(env, g, node, lhs, rhs, lines, ends));
}

proof fn or_is_printed(env: GenView, g: Gen, node: Node, lhs: Node, rhs: Node)
    requires
        node.kind == (NodeKind::LogicalOr { lhs: Box::new(lhs), rhs: Box::new(rhs) }),
        scalar(env.types, node_ty(lhs)) is Some,
        scalar(env.types, node_ty(rhs)) is Some,
        gen_logical(env, g, node) is Ok,
    ensures
        exists|ends: Seq<Gen>| #[trigger]
            logical_text(
                env,
                g,
                node,
                lhs,
                rhs,
                logical_lines(
                    false,
                    take_label(g)->Ok_0.1 as int,
                    scalar(env.types, node_ty(lhs)).unwrap(),
                    scalar(env.types, node_ty(rhs)).unwrap(),
                ),
                ends,
            ),
{
    let l = scalar(env.types, node_ty(lhs)).unwrap();
    let r = scalar(env.types, node_ty(rhs)).unwrap();
    assert(gen_logical(env, g, node) == gen_logical_rule(env, g, node));
    let (g0, n) = take_label(g)->Ok_0;
    let lines = logical_lines(false, n as int, l, r);
    reveal(compare_zero);
    reveal(jump_if_nonzero);
    let c = gen_expr(env, g0, lhs)->Ok_0;
    let g3 = put_line(put_line(c, lines[1], Seq::empty()), lines[2], Seq::empty());
    let d = gen_expr(env, g3, rhs)->Ok_0;
    let ends = seq![c, d];
    one_line_is_printed(g0, lines, ends, 0);
    one_line_is_printed(g0, lines, ends, 1);
    one_line_is_printed(g0, lines, ends, 2);
    one_line_is_printed(g0, lines, ends, 3);
    one_line_is_printed(g0, lines, ends, 4);
    one_line_is_printed(g0, lines, ends, 5);
    one_line_is_printed(g0, lines, ends, 6);
    one_line_is_printed(g0, lines, ends, 7);
    one_line_is_printed(g0, lines, ends, 8);
    one_line_is_printed(g0, lines, ends, 9);
    one_line_is_printed(g0, lines, ends, 10);
    assert(printed(g0, lines, ends, 3) == g3);
    assert(logical_text(env, g, node, lhs, rhs, lines, ends));
}

/// "&&" and "||" evaluate their right operand only where the left one does not
/// decide, and give 1 or 0.
pub proof fn logical_operators_decide(env: GenView, g: Gen, node: Node, lhs: Node, rhs: Node)
    requires
        node.kind == (NodeKind::LogicalAnd { lhs: Box::new(lhs), rhs: Box::new(rhs) }) || node.kind
            == (NodeKind::LogicalOr { lhs: Box::new(lhs), rhs: Box::new(rhs) }),
        scalar(env.types, node_ty(lhs)) is Some,
        scalar(env.types, node_ty(rhs)) is Some,
        gen_logical(env, g, node) is Ok,
    ensures
        exists|lines: Seq<Line>, ends: Seq<Gen>|
            {
                &&& #[trigger] logical_text(env, g, node, lhs, rhs, lines, ends)
                &&& decides(
                    lines,
                    node.kind is LogicalAnd,
                    scalar(env.types, node_ty(lhs)).unwrap(),
                    scalar(env.types, node_ty(rhs)).unwrap(),
                )
            },
{
    let l = scalar(env.types, node_ty(lhs)).unwrap();
    let r = scalar(env.types, node_ty(rhs)).unwrap();
    let is_and = node.kind is LogicalAnd;
    let lines = logical_lines(is_and, take_label(g)->Ok_0.1 as int, l, r);
    logical_lines_decide(is_and, take_label(g)->Ok_0.1 as int, l, r);
    if is_and {
        and_is_printed(env, g, node, lhs, rhs);
    } else {
        or_is_printed(env, g, node, lhs, rhs);
    }
    let ends = choose|ends: Seq<Gen>| #[trigger]
        logical_text(env, g, node, lhs, rhs, lines, ends);
    assert(logical_text(env, g, node, lhs, rhs, lines, ends));
}

pub open spec fn for_lines(n: int, brk: int, cont: int, s: Scalar) -> Seq<Line> {
    let begin = Mark { way: Way::Begin, number: n };
    let out = Mark { way: Way::Numbered, number: brk };
    let next = Mark { way: Way::Numbered, number: cont };
    seq![
        Line::Part(0),
        Line::Label(begin),
        Line::Part(1),
        Line::Do(Instr::CmpZero(test_width(s))),
        Line::JumpIfZero(out),
        Line::Part(2),
        Line::Label(next),
        Line::Part(3),
        Line::Jump(begin),
        Line::Label(out),
    ]
}

/// Whether lines first do a part, and then go round: as long as the condition in
/// the second part is not zero, they do the body and what follows it, in this
/// order. A jump to the label for "continue" goes on behind the body, and one to
/// the label for "break" behind the loop.
pub open spec fn goes_round(lines: Seq<Line>, s: Scalar, brk: int, cont: int) -> bool {
    &&& forall|effects: Seq<Effect>, m: Machine, steps: nat|
        #[trigger] go(lines, effects, 0, m, steps + 1) == (match effects[0](m) {
            None => None,
            Some(m) => go(lines, effects, 1, m, steps),
        })
    &&& forall|effects: Seq<Effect>, m: Machine, v: int, steps: nat|
        #![trigger leaves(effects[1], m, s, v), go(lines, effects, 1, m, steps + 8)]
        leaves(effects[1], m, s, v) ==> {
            let first = tested(effects[1](m).unwrap(), s);
            go(lines, effects, 1, m, steps + 8) == (if v == 0 {
                Some(first)
            } else {
                match effects[2](first) {
                    None => None,
                    Some(second) => match effects[3](second) {
                        None => None,
                        Some(third) => go(lines, effects, 1, third, steps),
                    },
                }
            })
        }
    &&& forall|effects: Seq<Effect>, m: Machine, steps: nat|
        #[trigger] go(
            lines,
            effects,
            target(lines, Mark { way: Way::Numbered, number: cont }, 0),
            m,
            steps + 3,
        ) == (match effects[3](m) {
            None => None,
            Some(third) => go(lines, effects, 1, third, steps),
        })
    &&& forall|effects: Seq<Effect>, m: Machine, steps: nat|
        #[trigger] go(
            lines,
            effects,
            target(lines, Mark { way: Way::Numbered, number: brk }, 0),
            m,
            steps + 1,
        ) == Some(m)
}

proof fn for_lines_go_round(n: int, brk: int, cont: int, s: Scalar)
    requires
        brk != cont,
    ensures
        goes_round(for_lines(n, brk, cont, s), s, brk, cont),
{
    let lines = for_lines(n, brk, cont, s);
    label_is_found_from(lines, lines[1]->Label_0, 0, 1);
    label_is_found_from(lines, lines[6]->Label_0, 0, 6);
    label_is_found_from(lines, lines[9]->Label_0, 0, 9);
    assert forall|effects: Seq<Effect>, m: Machine, v: int, steps: nat|
        #![trigger leaves(effects[1], m, s, v), go(lines, effects, 1, m, steps + 8)]
        leaves(effects[1], m, s, v) implies {
        let first = tested(effects[1](m).unwrap(), s);
        go(lines, effects, 1, m, steps + 8) == (if v == 0 {
            Some(first)
        } else {
            match effects[2](first) {
                None => None,
                Some(second) => match effects[3](second) {
                    None => None,
                    Some(third) => go(lines, effects, 1, third, steps),
                },
            }
        })
    } by {
        let m1 = effects[1](m).unwrap();
        let first = tested(m1, s);
        testing_tells(m1, s, v);
        one_line(lines, effects, 1, m, steps + 7);
        one_line(lines, effects, 2, m, steps + 6);
        one_line(lines, effects, 3, m1, steps + 5);
        one_line(lines, effects, 4, first, steps + 4);
        if v == 0 {
            one_line(lines, effects, 9, first, steps + 3);
            no_line(lines, effects, 10, first, steps + 3);
        } else {
            one_line(lines, effects, 5, first, steps + 3);
            if let Some(second) = effects[2](first) {
                one_line(lines, effects, 6, second, steps + 2);
                one_line(lines, effects, 7, second, steps + 1);
                if let Some(third) = effects[3](second) {
                    one_line(lines, effects, 8, third, steps);
                }
            }
        }
    }
    assert forall|effects: Seq<Effect>, m: Machine, steps: nat|
        #[trigger] go(lines, effects, 0, m, steps + 1) == (match effects[0](m) {
            None => None,
            Some(m) => go(lines, effects, 1, m, steps),
        }) by {
        one_line(lines, effects, 0, m, steps);
    }
    assert forall|effects: Seq<Effect>, m: Machine, steps: nat|
        #[trigger] go(
            lines,
            effects,
            target(lines, Mark { way: Way::Numbered, number: cont }, 0),
            m,
            steps + 3,
        ) == (match effects[3](m) {
            None => None,
            Some(third) => go(lines, effects, 1, third, steps),
        }) by {
        one_line(lines, effects, 6, m, steps + 2);
        one_line(lines, effects, 7, m, steps + 1);
        if let Some(third) = effects[3](m) {
            one_line(lines, effects, 8, third, steps);
        }
    }
    assert forall|effects: Seq<Effect>, m: Machine, steps: nat|
        #[trigger] go(
            lines,
            effects,
            target(lines, Mark { way: Way::Numbered, number: brk }, 0),
            m,
            steps + 1,
        ) == Some(m) by {
        one_line(lines, effects, 9, m, steps);
        no_line(lines, effects, 10, m, steps);
    }
}

/// The parts of a loop.
pub struct Parts {
    pub init: Option<Box<Stmt>>,
    pub cond: Node,
    pub inc: Option<Node>,
    pub body: Stmt,
}

/// Where the text of an expression, of a statement, or of one that may be missing
/// ends if it is generated at a place.
#[verifier::opaque]
pub open spec fn expr_ends(env: GenView, g: Gen, node: Node, end: Gen) -> bool {
    gen_expr(env, g, node) == Ok::<Gen, Error>(end)
}

#[verifier::opaque]
pub open spec fn stmt_ends(env: GenView, g: Gen, stmt: Stmt, end: Gen) -> bool {
    gen_stmt(env, g, stmt) == Ok::<Gen, Error>(end)
}

#[verifier::opaque]
pub open spec fn opt_stmt_ends(env: GenView, g: Gen, stmt: Option<Box<Stmt>>, end: Gen) -> bool {
    gen_opt_stmt(env, g, stmt) == Ok::<Gen, Error>(end)
}

#[verifier::opaque]
pub open spec fn opt_ends(env: GenView, g: Gen, node: Option<Node>, end: Gen) -> bool {
    gen_opt(env, g, node) == Ok::<Gen, Error>(end)
}

/// Whether a statement is a loop whose text ends at a place.
#[verifier::opaque]
pub open spec fn loop_ends(env: GenView, g: Gen, stmt: Stmt, end: Gen) -> bool {
    gen_for(env, g, stmt) == Ok::<Gen, Error>(end)
}

/// Whether the parts of a loop stand where they are run.
pub open spec fn for_parts(
    env: GenView,
    g: Gen,
    parts: Parts,
    lines: Seq<Line>,
    ends: Seq<Gen>,
) -> bool {
    &&& opt_stmt_ends(env, printed(g, lines, ends, 0), parts.init, ends[0])
    &&& expr_ends(env, printed(g, lines, ends, 2), parts.cond, ends[1])
    &&& stmt_ends(env, printed(g, lines, ends, 5), parts.body, ends[2])
    &&& opt_ends(env, printed(g, lines, ends, 7), parts.inc, ends[3])
}

/// Whether the text of a loop is made of some lines.
pub open spec fn for_text(
    env: GenView,
    g: Gen,
    stmt: Stmt,
    parts: Parts,
    lines: Seq<Line>,
    ends: Seq<Gen>,
) -> bool {
    &&& loop_ends(env, g, stmt, printed(after_label(g), lines, ends, lines.len()))
    &&& for_parts(env, after_label(g), parts, lines, ends)
}

/// The text of the condition of a loop.
pub open spec fn cond_text(e: Gen, s: Scalar, brk: usize) -> Gen {
    put_line(
        put_line(e, Line::Do(Instr::CmpZero(test_width(s))), Seq::empty()),
        Line::JumpIfZero(Mark { way: Way::Numbered, number: brk as int }),
        Seq::empty(),
    )
}

proof fn condition_is_printed(env: GenView, g: Gen, cond: Node, brk: usize)
    requires
        scalar(env.types, node_ty(cond)) is Some,
    ensures
        gen_loop_cond(env, g, Some(cond), brk) == (match gen_expr(env, g, cond) {
            Err(e) => Err(e),
            Ok(e) => Ok::<Gen, Error>(
                cond_text(e, scalar(env.types, node_ty(cond)).unwrap(), brk),
            ),
        }),
{
    reveal(compare_zero);
    reveal(jump_if_zero);
    assert(gen_loop_cond(env, g, Some(cond), brk) == gen_loop_cond_rule(env, g, Some(cond), brk));
}

pub open spec fn label_text(g: Gen, way: Way, number: int) -> Gen {
    nl(puts(putd(puts(g, mark_name(way)), number), ":"))
}

#[verifier::rlimit(40)]
proof fn loop_is_put_together(
    env: GenView,
    g: Gen,
    stmt: Stmt,
    parts: Parts,
    brk: usize,
    cont: usize,
)
    requires
        stmt.kind == (StmtKind::Loop {
            init: parts.init,
            cond: Some(parts.cond),
            inc: parts.inc,
            body: Box::new(parts.body),
            do_while: false,
            brk_label: brk,
            cont_label: cont,
        }),
        scalar(env.types, node_ty(parts.cond)) is Some,
        gen_for(env, g, stmt) is Ok,
    ensures
        exists|e0: Gen, e1: Gen, e2: Gen, e3: Gen| #[trigger]
            loop_pieces(
                env,
                g,
                stmt,
                parts,
                brk,
                cont,
                scalar(env.types, node_ty(parts.cond)).unwrap(),
                e0,
                e1,
                e2,
                e3,
            ),
{
    let s = scalar(env.types, node_ty(parts.cond)).unwrap();
    let (g0, n) = take_label(g)->Ok_0;
    assert(gen_for(env, g, stmt) == gen_for_rule(env, g, stmt));
    let e0 = gen_opt_stmt(env, g0, parts.init);
    let g2 = label_text(e0->Ok_0, Way::Begin, n as int);
    condition_is_printed(env, g2, parts.cond, brk);
    let e1 = gen_expr(env, g2, parts.cond);
    let g5 = cond_text(e1->Ok_0, s, brk);
    let e2 = gen_stmt(env, g5, parts.body);
    let g7 = label_text(e2->Ok_0, Way::Numbered, cont as int);
    let e3 = gen_opt(env, g7, parts.inc);
    let last = label_text(
        nl(putd(puts(e3->Ok_0, "  jmp .L.begin."), n as int)),
        Way::Numbered,
        brk as int,
    );
    assert(e0 is Ok && e1 is Ok && e2 is Ok && e3 is Ok);
    assert(gen_for(env, g, stmt) == Ok::<Gen, Error>(last));
    assert(opt_stmt_ends(env, g0, parts.init, e0->Ok_0)) by {
        reveal(opt_stmt_ends);
    }
    assert(expr_ends(env, g2, parts.cond, e1->Ok_0)) by {
        reveal(expr_ends);
    }
    assert(stmt_ends(env, g5, parts.body, e2->Ok_0)) by {
        reveal(stmt_ends);
    }
    assert(opt_ends(env, g7, parts.inc, e3->Ok_0)) by {
        reveal(opt_ends);
    }
    assert(loop_ends(env, g, stmt, last)) by {
        reveal(loop_ends);
    }
    assert(loop_pieces(
        env,
        g,
        stmt,
        parts,
        brk,
        cont,
        s,
        e0->Ok_0,
        e1->Ok_0,
        e2->Ok_0,
        e3->Ok_0,
    ));
}

/// The pieces that the text of a loop is made of.
pub open spec fn loop_pieces(
    env: GenView,
    g: Gen,
    stmt: Stmt,
    parts: Parts,
    brk: usize,
    cont: usize,
    s: Scalar,
    e0: Gen,
    e1: Gen,
    e2: Gen,
    e3: Gen,
) -> bool {
    let (g0, n) = take_label(g)->Ok_0;
    &&& opt_stmt_ends(env, g0, parts.init, e0)
    &&& expr_ends(env, label_text(e0, Way::Begin, n as int), parts.cond, e1)
    &&& stmt_ends(env, cond_text(e1, s, brk), parts.body, e2)
    &&& opt_ends(env, label_text(e2, Way::Numbered, cont as int), parts.inc, e3)
    &&& loop_ends(
        env,
        g,
        stmt,
        label_text(
            nl(putd(puts(e3, "  jmp .L.begin."), n as int)),
            Way::Numbered,
            brk as int,
        ),
    )
}

proof fn for_is_printed(
    env: GenView,
    g: Gen,
    stmt: Stmt,
    parts: Parts,
    brk: usize,
    cont: usize,
)
    requires
        stmt.kind == (StmtKind::Loop {
            init: parts.init,
            cond: Some(parts.cond),
            inc: parts.inc,
            body: Box::new(parts.body),
            do_while: false,
            brk_label: brk,
            cont_label: cont,
        }),
        scalar(env.types, node_ty(parts.cond)) is Some,
        gen_for(env, g, stmt) is Ok,
    ensures
        exists|ends: Seq<Gen>| #[trigger]
            for_text(
                env,
                g,
                stmt,
                parts,
                for_lines(
                    take_label(g)->Ok_0.1 as int,
                    brk as int,
                    cont as int,
                    scalar(env.types, node_ty(parts.cond)).unwrap(),
                ),
                ends,
            ),
{
    let s = scalar(env.types, node_ty(parts.cond)).unwrap();
    let (g0, n) = take_label(g)->Ok_0;
    let lines = for_lines(n as int, brk as int, cont as int, s);
    loop_is_put_together(env, g, stmt, parts, brk, cont);
    let (e0, e1, e2, e3) = choose|e0: Gen, e1: Gen, e2: Gen, e3: Gen| #[trigger]
        loop_pieces(env, g, stmt, parts, brk, cont, s, e0, e1, e2, e3);
    let ends = seq![e0, e1, e2, e3];
    printed_loop(g0, lines, ends, n as int, brk, cont, s);
    assert(for_text(env, g, stmt, parts, lines, ends));
}

proof fn printed_loop(
    g0: Gen,
    lines: Seq<Line>,
    ends: Seq<Gen>,
    n: int,
    brk: usize,
    cont: usize,
    s: Scalar,
)
    requires
        lines == for_lines(n, brk as int, cont as int, s),
    ensures
        lines.len() == 10,
        printed(g0, lines, ends, 0) == g0,
        printed(g0, lines, ends, 2) == label_text(ends[0], Way::Begin, n),
        printed(g0, lines, ends, 5) == cond_text(ends[1], s, brk),
        printed(g0, lines, ends, 7) == label_text(ends[2], Way::Numbered, cont as int),
        printed(g0, lines, ends, 10) == label_text(
            nl(putd(puts(ends[3], "  jmp .L.begin."), n)),
            Way::Numbered,
            brk as int,
        ),
{
    one_line_is_printed(g0, lines, ends, 0);
    one_line_is_printed(g0, lines, ends, 1);
    one_line_is_printed(g0, lines, ends, 2);
    one_line_is_printed(g0, lines, ends, 3);
    one_line_is_printed(g0, lines, ends, 4);
    one_line_is_printed(g0, lines, ends, 5);
    one_line_is_printed(g0, lines, ends, 6);
    one_line_is_printed(g0, lines, ends, 7);
    one_line_is_printed(g0, lines, ends, 8);
    one_line_is_printed(g0, lines, ends, 9);
}

/// A for-loop or while-loop goes round as long as its condition is not zero.
pub proof fn loops_go_round(
    env: GenView,
    g: Gen,
    stmt: Stmt,
    parts: Parts,
    brk: usize,
    cont: usize,
)
    requires
        stmt.kind == (StmtKind::Loop {
            init: parts.init,
            cond: Some(parts.cond),
            inc: parts.inc,
            body: Box::new(parts.body),
            do_while: false,
            brk_label: brk,
            cont_label: cont,
        }),
        brk != cont,
        scalar(env.types, node_ty(parts.cond)) is Some,
        gen_for(env, g, stmt) is Ok,
    ensures
        exists|lines: Seq<Line>, ends: Seq<Gen>|
            {
                &&& #[trigger] for_text(env, g, stmt, parts, lines, ends)
                &&& goes_round(
                    lines,
                    scalar(env.types, node_ty(parts.cond)).unwrap(),
                    brk as int,
                    cont as int,
                )
            },
{
    let s = scalar(env.types, node_ty(parts.cond)).unwrap();
    let n = take_label(g)->Ok_0.1;
    let lines = for_lines(n as int, brk as int, cont as int, s);
    for_lines_go_round(n as int, brk as int, cont as int, s);
    for_is_printed(env, g, stmt, parts, brk, cont);
    let ends = choose|ends: Seq<Gen>| #[trigger] for_text(env, g, stmt, parts, lines, ends);
    assert(for_text(env, g, stmt, parts, lines, ends));
}

pub open spec fn do_lines(n: int, brk: int, cont: int, s: Scalar) -> Seq<Line> {
    let begin = Mark { way: Way::Begin, number: n };
    let out = Mark { way: Way::Numbered, number: brk };
    let next = Mark { way: Way::Numbered, number: cont };
    seq![
        Line::Label(begin),
        Line::Part(0),
        Line::Label(next),
        Line::Part(1),
        Line::Do(Instr::CmpZero(test_width(s))),
        Line::JumpIfNonzero(begin),
        Line::Label(out),
    ]
}

/// Whether lines do the body, and then again as long as the condition behind it is
/// not zero. A jump to the label for "continue" goes on with the condition, and one
/// to the label for "break" behind the loop.
pub open spec fn repeats(lines: Seq<Line>, s: Scalar, brk: int, cont: int) -> bool {
    &&& forall|effects: Seq<Effect>, m: Machine, v: int, steps: nat|
        #![
            trigger leaves(effects[1], effects[0](m).unwrap(), s, v),
            go(lines, effects, 0, m, steps + 7),
        ]
        effects[0](m) is Some && leaves(effects[1], effects[0](m).unwrap(), s, v) ==> {
            let second = tested(effects[1](effects[0](m).unwrap()).unwrap(), s);
            go(lines, effects, 0, m, steps + 7) == (if v == 0 {
                Some(second)
            } else {
                go(lines, effects, 0, second, steps + 1)
            })
        }
    &&& forall|effects: Seq<Effect>, m: Machine, v: int, steps: nat|
        #![
            trigger leaves(effects[1], m, s, v),
            go(
                lines,
                effects,
                target(lines, Mark { way: Way::Numbered, number: cont }, 0),
                m,
                steps + 5,
            ),
        ]
        leaves(effects[1], m, s, v) ==> {
            let second = tested(effects[1](m).unwrap(), s);
            go(
                lines,
                effects,
                target(lines, Mark { way: Way::Numbered, number: cont }, 0),
                m,
                steps + 5,
            ) == (if v == 0 {
                Some(second)
            } else {
                go(lines, effects, 0, second, steps + 1)
            })
        }
    &&& forall|effects: Seq<Effect>, m: Machine, steps: nat|
        #[trigger] go(
            lines,
            effects,
            target(lines, Mark { way: Way::Numbered, number: brk }, 0),
            m,
            steps + 1,
        ) == Some(m)
}

proof fn do_lines_repeat(n: int, brk: int, cont: int, s: Scalar)
    requires
        brk != cont,
    ensures
        repeats(do_lines(n, brk, cont, s), s, brk, cont),
{
    let lines = do_lines(n, brk, cont, s);
    label_is_found_from(lines, lines[0]->Label_0, 0, 0);
    label_is_found_from(lines, lines[2]->Label_0, 0, 2);
    label_is_found_from(lines, lines[6]->Label_0, 0, 6);
    assert forall|effects: Seq<Effect>, m: Machine, v: int, steps: nat|
        #![
            trigger leaves(effects[1], effects[0](m).unwrap(), s, v),
            go(lines, effects, 0, m, steps + 7),
        ]
        effects[0](m) is Some && leaves(effects[1], effects[0](m).unwrap(), s, v) implies {
        let second = tested(effects[1](effects[0](m).unwrap()).unwrap(), s);
        go(lines, effects, 0, m, steps + 7) == (if v == 0 {
            Some(second)
        } else {
            go(lines, effects, 0, second, steps + 1)
        })
    } by {
        let m1 = effects[0](m).unwrap();
        one_line(lines, effects, 0, m, steps + 6);
        one_line(lines, effects, 1, m, steps + 5);
        do_lines_test(lines, effects, m1, s, v, steps);
    }
    assert forall|effects: Seq<Effect>, m: Machine, v: int, steps: nat|
        #![
            trigger leaves(effects[1], m, s, v),
            go(
                lines,
                effects,
                target(lines, Mark { way: Way::Numbered, number: cont }, 0),
                m,
                steps + 5,
            ),
        ]
        leaves(effects[1], m, s, v) implies {
        let second = tested(effects[1](m).unwrap(), s);
        go(
            lines,
            effects,
            target(lines, Mark { way: Way::Numbered, number: cont }, 0),
            m,
            steps + 5,
        ) == (if v == 0 {
            Some(second)
        } else {
            go(lines, effects, 0, second, steps + 1)
        })
    } by {
        do_lines_test(lines, effects, m, s, v, steps);
    }
    assert forall|effects: Seq<Effect>, m: Machine, steps: nat|
        #[trigger] go(
            lines,
            effects,
            target(lines, Mark { way: Way::Numbered, number: brk }, 0),
            m,
            steps + 1,
        ) == Some(m) by {
        one_line(lines, effects, 6, m, steps);
        no_line(lines, effects, 7, m, steps);
    }
}

proof fn do_lines_test(
    lines: Seq<Line>,
    effects: Seq<Effect>,
    m: Machine,
    s: Scalar,
    v: int,
    steps: nat,
)
    requires
        lines.len() == 7,
        lines[2] is Label,
        lines[3] == Line::Part(1),
        lines[4] == Line::Do(Instr::CmpZero(test_width(s))),
        lines[5] is JumpIfNonzero,
        target(lines, lines[5]->JumpIfNonzero_0, 0) == 0,
        lines[6] is Label,
        leaves(effects[1], m, s, v),
    ensures
        go(lines, effects, 2, m, steps + 5) == (if v == 0 {
            Some(tested(effects[1](m).unwrap(), s))
        } else {
            go(lines, effects, 0, tested(effects[1](m).unwrap(), s), steps + 1)
        }),
{
    let m1 = effects[1](m).unwrap();
    let t = tested(m1, s);
    testing_tells(m1, s, v);
    one_line(lines, effects, 2, m, steps + 4);
    one_line(lines, effects, 3, m, steps + 3);
    one_line(lines, effects, 4, m1, steps + 2);
    one_line(lines, effects, 5, t, steps + 1);
    if v == 0 {
        one_line(lines, effects, 6, t, steps);
        no_line(lines, effects, 7, t, steps);
    }
}

/// A do-loop does its body once, and again as long as its condition is not zero.
pub proof fn do_loops_repeat(
    env: GenView,
    g: Gen,
    stmt: Stmt,
    init: Option<Box<Stmt>>,
    cond: Node,
    inc: Option<Node>,
    body: Stmt,
    brk: usize,
    cont: usize,
)
    requires
        stmt.kind == (StmtKind::Loop {
            init,
            cond: Some(cond),
            inc,
            body: Box::new(body),
            do_while: true,
            brk_label: brk,
            cont_label: cont,
        }),
        brk != cont,
        scalar(env.types, node_ty(cond)) is Some,
        gen_do(env, g, stmt) is Ok,
    ensures
        exists|lines: Seq<Line>, ends: Seq<Gen>|
            {
                &&& gen_do(env, g, stmt)->Ok_0 == #[trigger] printed(
                    after_label(g),
                    lines,
                    ends,
                    lines.len(),
                )
                &&& gen_stmt(
                    env,
                    printed(after_label(g), lines, ends, 1),
                    body,
                ) == Ok::<Gen, Error>(ends[0])
                &&& gen_expr(
                    env,
                    printed(after_label(g), lines, ends, 3),
                    cond,
                ) == Ok::<Gen, Error>(ends[1])
                &&& repeats(
                    lines,
                    scalar(env.types, node_ty(cond)).unwrap(),
                    brk as int,
                    cont as int,
                )
            },
{
    let s = scalar(env.types, node_ty(cond)).unwrap();
    assert(gen_do(env, g, stmt) == gen_do_rule(env, g, stmt));
    let (g0, n) = take_label(g)->Ok_0;
    let lines = do_lines(n as int, brk as int, cont as int, s);
    do_lines_repeat(n as int, brk as int, cont as int, s);
    reveal(compare_zero);
    reveal(jump_if_nonzero);
    let g1 = put_line(g0, lines[0], Seq::empty());
    let e0 = gen_stmt(env, g1, body)->Ok_0;
    let g3 = put_line(e0, lines[2], Seq::empty());
    let e1 = gen_expr(env, g3, cond)->Ok_0;
    let ends = seq![e0, e1];
    one_line_is_printed(g0, lines, ends, 0);
    one_line_is_printed(g0, lines, ends, 1);
    one_line_is_printed(g0, lines, ends, 2);
    one_line_is_printed(g0, lines, ends, 3);
    one_line_is_printed(g0, lines, ends, 4);
    one_line_is_printed(g0, lines, ends, 5);
    one_line_is_printed(g0, lines, ends, 6);
    assert(printed(g0, lines, ends, 1) == g1);
    assert(printed(g0, lines, ends, 3) == g3);
    assert(gen_do(env, g, stmt)->Ok_0 == printed(g0, lines, ends, lines.len()));
}

} // verus!
