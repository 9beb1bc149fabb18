//! The machine computes what evaluation means.
//!
//! Driven by a host, the machine that begins with a term ends with the result
//! that `eval_spec` gives the term, where it gives one; and where the machine
//! ends with a result, `eval_spec` gives that result.

use vstd::prelude::*;
use crate::ast::Term;
use crate::interpreter::error::Failure;
use crate::interpreter::machine::{
    evaluating, initial, pending, returning, FrameModel, State,
};
use crate::ast::{ArithmeticOp, ComparisonOp};
use crate::interpreter::semantics::{compare, drive, eval_spec, finished, operate, run, Host};
use crate::interpreter::value::Value;

verus! {

/// The number of turns that the evaluation of `term` in `env` takes, up to
/// its value or to its failure.
pub open spec fn turns(host: Host, term: Term, env: Map<Seq<char>, Value>, fuel: nat) -> nat
    decreases fuel,
{
    if fuel == 0 {
        0
    } else {
        let fuel = (fuel - 1) as nat;
        match term {
            Term::App { function, parameter } => 1 + turns(host, *parameter, env, fuel) + (
            match eval_spec(host, *parameter, env, fuel) {
                Some(Ok(argument)) => 1 + turns(host, *function, env, fuel) + (match eval_spec(
                    host,
                    *function,
                    env,
                    fuel,
                ) {
                    Some(Ok(Value::Closure { var, body, context })) => 1 + turns(
                        host,
                        body,
                        context.insert(var, argument),
                        fuel,
                    ),
                    Some(Ok(_)) => 1,
                    _ => 0,
                }),
                _ => 0,
            }),
            Term::Arithmetic { operation, lhs, rhs } => 1 + turns(host, *lhs, env, fuel) + (
            match eval_spec(host, *lhs, env, fuel) {
                Some(Ok(left)) => 1 + turns(host, *rhs, env, fuel) + (match eval_spec(
                    host,
                    *rhs,
                    env,
                    fuel,
                ) {
                    Some(Ok(right)) => if left is Number && right is Number {
                        2nat
                    } else {
                        1nat
                    },
                    _ => 0,
                }),
                _ => 0,
            }),
            Term::Comparison { operation, lhs, rhs } => 1 + turns(host, *lhs, env, fuel) + (
            match eval_spec(host, *lhs, env, fuel) {
                Some(Ok(left)) => 1 + turns(host, *rhs, env, fuel) + (match eval_spec(
                    host,
                    *rhs,
                    env,
                    fuel,
                ) {
                    Some(Ok(right)) => if left is Number && right is Number {
                        2nat
                    } else {
                        1nat
                    },
                    _ => 0,
                }),
                _ => 0,
            }),
            Term::Conditional { condition, true_branch, false_branch } => 1 + turns(
                host,
                *condition,
                env,
                fuel,
            ) + (match eval_spec(host, *condition, env, fuel) {
                Some(Ok(Value::Boolean(b))) => 1 + turns(
                    host,
                    if b {
                        *true_branch
                    } else {
                        *false_branch
                    },
                    env,
                    fuel,
                ),
                Some(Ok(_)) => 1,
                _ => 0,
            }),
            Term::NumericLiteral { .. } => 2,
            _ => 1,
        }
    }
}

/// Turns add up.
pub proof fn lemma_run_add(host: Host, at: State, a: nat, b: nat)
    ensures
        run(host, at, a + b) == run(host, run(host, at, a), b),
    decreases a,
{
    if a > 0 {
        lemma_run_add(host, drive(host, at), (a - 1) as nat, b);
    }
}

/// After the last step nothing changes.
pub proof fn lemma_run_finished(host: Host, at: State, n: nat)
    requires
        at.control is Halted,
    ensures
        run(host, at, n) == at,
    decreases n,
{
    if n > 0 {
        lemma_run_finished(host, at, (n - 1) as nat);
    }
}

/// A run that goes from `at` to `middle` in `a` turns goes on from there.
proof fn lemma_run_via(host: Host, at: State, a: nat, middle: State, b: nat)
    requires
        run(host, at, a) == middle,
    ensures
        run(host, at, a + b) == run(host, middle, b),
{
    lemma_run_add(host, at, a, b);
}

/// A turn, then a run.
proof fn lemma_run_step(host: Host, at: State, b: nat)
    ensures
        run(host, at, 1 + b) == run(host, drive(host, at), b),
{
    assert(run(host, at, 1) == drive(host, at)) by {
        reveal_with_fuel(run, 2);
    }
    lemma_run_add(host, at, 1, b);
}

/// The machine evaluates a term as `eval_spec` says: from the state that is
/// about to evaluate `term` in `env` it comes, in `turns` turns, to the state
/// that is about to hand on the value, with the stack as it was; or it ends
/// with the failure.
pub proof fn lemma_machine_evaluates(
    host: Host,
    term: Term,
    env: Map<Seq<char>, Value>,
    fuel: nat,
    stack: Seq<FrameModel>,
)
    requires
        eval_spec(host, term, env, fuel) is Some,
    ensures
        ({
            let end = run(host, evaluating(term, env, stack), turns(host, term, env, fuel));
            match eval_spec(host, term, env, fuel)->0 {
                Ok(value) => end == returning(value, stack),
                Err(failure) => finished(end, Err(failure)),
            }
        }),
    decreases fuel, 1nat,
{
    let start = evaluating(term, env, stack);
    match term {
        Term::App { .. } => {
            lemma_machine_applies(host, term, env, fuel, stack);
        },
        Term::Arithmetic { .. } => {
            lemma_machine_operates(host, term, env, fuel, stack);
        },
        Term::Comparison { .. } => {
            lemma_machine_compares(host, term, env, fuel, stack);
        },
        Term::Conditional { .. } => {
            lemma_machine_decides(host, term, env, fuel, stack);
        },
        Term::NumericLiteral { value } => {
            lemma_run_step(host, start, 1);
            lemma_run_step(host, drive(host, start), 0);
        },
        _ => {
            lemma_run_step(host, start, 0);
        },
    }
}

/// The same of an application.
proof fn lemma_machine_applies(
    host: Host,
    term: Term,
    env: Map<Seq<char>, Value>,
    fuel: nat,
    stack: Seq<FrameModel>,
)
    requires
        term is App,
        eval_spec(host, term, env, fuel) is Some,
    ensures
        ({
            let end = run(host, evaluating(term, env, stack), turns(host, term, env, fuel));
            match eval_spec(host, term, env, fuel)->0 {
                Ok(value) => end == returning(value, stack),
                Err(failure) => finished(end, Err(failure)),
            }
        }),
    decreases fuel, 0nat,
{
    let less = (fuel - 1) as nat;
    let start = evaluating(term, env, stack);
    match term {
        Term::App { function, parameter } => {
            let waiting = stack.push(FrameModel::Argument { function: *function, env });
            let n1 = turns(host, *parameter, env, less);
            lemma_run_step(host, start, n1);
            assert(drive(host, start) == evaluating(*parameter, env, waiting));
            lemma_machine_evaluates(host, *parameter, env, less, waiting);
            match eval_spec(host, *parameter, env, less) {
                Some(Ok(argument)) => {
                    let held = stack.push(FrameModel::Function { parameter: argument });
                    let n2 = turns(host, *function, env, less);
                    assert(waiting.drop_last() =~= stack);
                    assert(drive(host, returning(argument, waiting)) == evaluating(
                        *function,
                        env,
                        held,
                    ));
                    lemma_run_via(host, start, 1 + n1, returning(argument, waiting), 1 + n2);
                    lemma_run_step(host, returning(argument, waiting), n2);
                    lemma_machine_evaluates(host, *function, env, less, held);
                    assert(held.drop_last() =~= stack);
                    match eval_spec(host, *function, env, less) {
                        Some(Ok(Value::Closure { var, body, context })) => {
                            let callee = Value::Closure { var, body, context };
                            let inner = context.insert(var, argument);
                            let n3 = turns(host, body, inner, less);
                            assert(drive(host, returning(callee, held)) == evaluating(
                                body,
                                inner,
                                stack,
                            ));
                            lemma_run_via(
                                host,
                                start,
                                1 + n1 + 1 + n2,
                                returning(callee, held),
                                1 + n3,
                            );
                            lemma_run_step(host, returning(callee, held), n3);
                            lemma_machine_evaluates(host, body, inner, less, stack);
                        },
                        Some(Ok(other)) => {
                            lemma_run_via(host, start, 1 + n1 + 1 + n2, returning(other, held), 1);
                            lemma_run_step(host, returning(other, held), 0);
                        },
                        _ => {},
                    }
                },
                _ => {},
            }
        },
        _ => {},
    }
}

/// The same of an arithmetic operation.
proof fn lemma_machine_operates(
    host: Host,
    term: Term,
    env: Map<Seq<char>, Value>,
    fuel: nat,
    stack: Seq<FrameModel>,
)
    requires
        term is Arithmetic,
        eval_spec(host, term, env, fuel) is Some,
    ensures
        ({
            let end = run(host, evaluating(term, env, stack), turns(host, term, env, fuel));
            match eval_spec(host, term, env, fuel)->0 {
                Ok(value) => end == returning(value, stack),
                Err(failure) => finished(end, Err(failure)),
            }
        }),
    decreases fuel, 0nat,
{
    let less = (fuel - 1) as nat;
    let start = evaluating(term, env, stack);
    match term {
        Term::Arithmetic { operation, lhs, rhs } => {
            let waiting = stack.push(FrameModel::ArithmeticLeft { operation, rhs: *rhs, env });
            let n1 = turns(host, *lhs, env, less);
            lemma_run_step(host, start, n1);
            assert(drive(host, start) == evaluating(*lhs, env, waiting));
            lemma_machine_evaluates(host, *lhs, env, less, waiting);
            match eval_spec(host, *lhs, env, less) {
                Some(Ok(left)) => {
                    let held = stack.push(FrameModel::ArithmeticRight { operation, lhs: left });
                    let n2 = turns(host, *rhs, env, less);
                    assert(waiting.drop_last() =~= stack);
                    assert(drive(host, returning(left, waiting)) == evaluating(*rhs, env, held));
                    lemma_run_via(host, start, 1 + n1, returning(left, waiting), 1 + n2);
                    lemma_run_step(host, returning(left, waiting), n2);
                    lemma_machine_evaluates(host, *rhs, env, less, held);
                    assert(held.drop_last() =~= stack);
                    match eval_spec(host, *rhs, env, less) {
                        Some(Ok(right)) => {
                            let last: nat = if left is Number && right is Number {
                                2
                            } else {
                                1
                            };
                            lemma_run_via(
                                host,
                                start,
                                1 + n1 + 1 + n2,
                                returning(right, held),
                                last,
                            );
                            lemma_run_step(host, returning(right, held), (last - 1) as nat);
                            if left is Number && right is Number {
                                lemma_run_step(host, drive(host, returning(right, held)), 0);
                            }
                        },
                        _ => {},
                    }
                },
                _ => {},
            }
        },
        _ => {},
    }
}

/// The same of a comparison.
proof fn lemma_machine_compares(
    host: Host,
    term: Term,
    env: Map<Seq<char>, Value>,
    fuel: nat,
    stack: Seq<FrameModel>,
)
    requires
        term is Comparison,
        eval_spec(host, term, env, fuel) is Some,
    ensures
        ({
            let end = run(host, evaluating(term, env, stack), turns(host, term, env, fuel));
            match eval_spec(host, term, env, fuel)->0 {
                Ok(value) => end == returning(value, stack),
                Err(failure) => finished(end, Err(failure)),
            }
        }),
    decreases fuel, 0nat,
{
    let less = (fuel - 1) as nat;
    let start = evaluating(term, env, stack);
    match term {
        Term::Comparison { operation, lhs, rhs } => {
            let waiting = stack.push(FrameModel::ComparisonLeft { operation, rhs: *rhs, env });
            let n1 = turns(host, *lhs, env, less);
            lemma_run_step(host, start, n1);
            assert(drive(host, start) == evaluating(*lhs, env, waiting));
            lemma_machine_evaluates(host, *lhs, env, less, waiting);
            match eval_spec(host, *lhs, env, less) {
                Some(Ok(left)) => {
                    let held = stack.push(FrameModel::ComparisonRight { operation, lhs: left });
                    let n2 = turns(host, *rhs, env, less);
                    assert(waiting.drop_last() =~= stack);
                    assert(drive(host, returning(left, waiting)) == evaluating(*rhs, env, held));
                    lemma_run_via(host, start, 1 + n1, returning(left, waiting), 1 + n2);
                    lemma_run_step(host, returning(left, waiting), n2);
                    lemma_machine_evaluates(host, *rhs, env, less, held);
                    assert(held.drop_last() =~= stack);
                    match eval_spec(host, *rhs, env, less) {
                        Some(Ok(right)) => {
                            let last: nat = if left is Number && right is Number {
                                2
                            } else {
                                1
                            };
                            lemma_run_via(
                                host,
                                start,
                                1 + n1 + 1 + n2,
                                returning(right, held),
                                last,
                            );
                            lemma_run_step(host, returning(right, held), (last - 1) as nat);
                            if left is Number && right is Number {
                                lemma_run_step(host, drive(host, returning(right, held)), 0);
                            }
                        },
                        _ => {},
                    }
                },
                _ => {},
            }
        },
        _ => {},
    }
}

/// The same of a conditional.
proof fn lemma_machine_decides(
    host: Host,
    term: Term,
    env: Map<Seq<char>, Value>,
    fuel: nat,
    stack: Seq<FrameModel>,
)
    requires
        term is Conditional,
        eval_spec(host, term, env, fuel) is Some,
    ensures
        ({
            let end = run(host, evaluating(term, env, stack), turns(host, term, env, fuel));
            match eval_spec(host, term, env, fuel)->0 {
                Ok(value) => end == returning(value, stack),
                Err(failure) => finished(end, Err(failure)),
            }
        }),
    decreases fuel, 0nat,
{
    let less = (fuel - 1) as nat;
    let start = evaluating(term, env, stack);
    match term {
        Term::Conditional { condition, true_branch, false_branch } => {
            let waiting = stack.push(
                FrameModel::Condition {
                    true_branch: *true_branch,
                    false_branch: *false_branch,
                    env,
                },
            );
            let n1 = turns(host, *condition, env, less);
            lemma_run_step(host, start, n1);
            assert(drive(host, start) == evaluating(*condition, env, waiting));
            lemma_machine_evaluates(host, *condition, env, less, waiting);
            assert(waiting.drop_last() =~= stack);
            match eval_spec(host, *condition, env, less) {
                Some(Ok(Value::Boolean(b))) => {
                    let branch = if b {
                        *true_branch
                    } else {
                        *false_branch
                    };
                    let decided = returning(Value::Boolean(b), waiting);
                    let n2 = turns(host, branch, env, less);
                    assert(drive(host, decided) == evaluating(branch, env, stack));
                    lemma_run_via(host, start, 1 + n1, decided, 1 + n2);
                    lemma_run_step(host, decided, n2);
                    lemma_machine_evaluates(host, branch, env, less, stack);
                },
                Some(Ok(other)) => {
                    lemma_run_via(host, start, 1 + n1, returning(other, waiting), 1);
                    lemma_run_step(host, returning(other, waiting), 0);
                },
                _ => {},
            }
        },
        _ => {},
    }
}

/// The machine computes what `eval_spec` defines: where a term has a result,
/// the machine that begins with the term, driven by the host, ends with that
/// result.
pub proof fn lemma_machine_computes(host: Host, term: Term, fuel: nat)
    requires
        eval_spec(host, term, Map::empty(), fuel) is Some,
    ensures
        exists|n: nat|
            finished(
                #[trigger] run(host, initial(term), n),
                eval_spec(host, term, Map::empty(), fuel)->0,
            ),
{
    let start = initial(term);
    let n = turns(host, term, Map::empty(), fuel);
    lemma_machine_evaluates(host, term, Map::empty(), fuel, Seq::empty());
    match eval_spec(host, term, Map::empty(), fuel)->0 {
        Ok(value) => {
            lemma_run_via(host, start, n, returning(value, Seq::empty()), 1);
            lemma_run_step(host, returning(value, Seq::empty()), 0);
            assert(finished(run(host, start, n + 1), Ok(value)));
        },
        Err(failure) => {
            assert(finished(run(host, start, n), Err(failure)));
        },
    }
}

/// More fuel changes neither a result nor the turns that it takes.
pub proof fn lemma_more_fuel(
    host: Host,
    term: Term,
    env: Map<Seq<char>, Value>,
    fuel: nat,
    more: nat,
)
    requires
        eval_spec(host, term, env, fuel) is Some,
        fuel <= more,
    ensures
        eval_spec(host, term, env, more) == eval_spec(host, term, env, fuel),
        turns(host, term, env, more) == turns(host, term, env, fuel),
    decreases fuel,
{
    let f = (fuel - 1) as nat;
    let m = (more - 1) as nat;
    match term {
        Term::App { function, parameter } => {
            lemma_more_fuel(host, *parameter, env, f, m);
            match eval_spec(host, *parameter, env, f) {
                Some(Ok(argument)) => {
                    lemma_more_fuel(host, *function, env, f, m);
                    match eval_spec(host, *function, env, f) {
                        Some(Ok(Value::Closure { var, body, context })) => {
                            lemma_more_fuel(host, body, context.insert(var, argument), f, m);
                        },
                        _ => {},
                    }
                },
                _ => {},
            }
        },
        Term::Arithmetic { operation, lhs, rhs } => {
            lemma_more_fuel(host, *lhs, env, f, m);
            match eval_spec(host, *lhs, env, f) {
                Some(Ok(_)) => {
                    lemma_more_fuel(host, *rhs, env, f, m);
                },
                _ => {},
            }
        },
        Term::Comparison { operation, lhs, rhs } => {
            lemma_more_fuel(host, *lhs, env, f, m);
            match eval_spec(host, *lhs, env, f) {
                Some(Ok(_)) => {
                    lemma_more_fuel(host, *rhs, env, f, m);
                },
                _ => {},
            }
        },
        Term::Conditional { condition, true_branch, false_branch } => {
            lemma_more_fuel(host, *condition, env, f, m);
            match eval_spec(host, *condition, env, f) {
                Some(Ok(Value::Boolean(b))) => {
                    lemma_more_fuel(
                        host,
                        if b {
                            *true_branch
                        } else {
                            *false_branch
                        },
                        env,
                        f,
                        m,
                    );
                },
                _ => {},
            }
        },
        _ => {},
    }
}

/// Whether `fuel` is enough for `term` in `env`, with a result that takes no
/// more than `n` turns.
pub open spec fn within(host: Host, term: Term, env: Map<Seq<char>, Value>, n: nat, fuel: nat) -> bool {
    eval_spec(host, term, env, fuel) is Some && turns(host, term, env, fuel) <= n
}

/// A run of `n` turns that has passed `middle` after `t` of them, and ends
/// with the machine finished, has `n - t` turns from `middle` to that end;
/// and at least one, where the machine at `middle` still asks for nothing.
proof fn lemma_rest(host: Host, start: State, n: nat, t: nat, middle: State)
    requires
        run(host, start, n).control is Halted,
        t <= n,
        run(host, start, t) == middle,
        pending(middle) is Continue,
    ensures
        n > t,
        run(host, drive(host, middle), (n - t - 1) as nat).control is Halted,
{
    lemma_run_add(host, start, t, (n - t) as nat);
    if n > t {
        lemma_run_step(host, middle, (n - t - 1) as nat);
    }
}

/// Where the machine, about to evaluate `term` in `env`, finishes within `n`
/// turns, the term has a result in `env`, or fails, within those turns.
pub proof fn lemma_run_has_result(
    host: Host,
    term: Term,
    env: Map<Seq<char>, Value>,
    stack: Seq<FrameModel>,
    n: nat,
)
    requires
        run(host, evaluating(term, env, stack), n).control is Halted,
    ensures
        exists|fuel: nat| within(host, term, env, n, fuel),
    decreases n, 1nat,
{
    let start = evaluating(term, env, stack);
    lemma_rest(host, start, n, 0, start);
    let n0 = (n - 1) as nat;
    match term {
        Term::App { .. } => {
            lemma_application_has_result(host, term, env, stack, n);
        },
        Term::Arithmetic { .. } => {
            lemma_arithmetic_has_result(host, term, env, stack, n);
        },
        Term::Comparison { .. } => {
            lemma_comparison_has_result(host, term, env, stack, n);
        },
        Term::Conditional { .. } => {
            lemma_conditional_has_result(host, term, env, stack, n);
        },
        Term::NumericLiteral { value } => {
            let asked = drive(host, start);
            lemma_run_step(host, asked, (n0 - 1) as nat);
            if n0 == 0 {
                assert(run(host, asked, 0) == asked);
            }
            assert(within(host, term, env, n, 1));
        },
        _ => {
            assert(within(host, term, env, n, 1));
        },
    }
}

/// The same of an application.
proof fn lemma_application_has_result(
    host: Host,
    term: Term,
    env: Map<Seq<char>, Value>,
    stack: Seq<FrameModel>,
    n: nat,
)
    requires
        term is App,
        run(host, evaluating(term, env, stack), n).control is Halted,
    ensures
        exists|fuel: nat| within(host, term, env, n, fuel),
    decreases n, 0nat,
{
    let start = evaluating(term, env, stack);
    lemma_rest(host, start, n, 0, start);
    let n0 = (n - 1) as nat;
    match term {
        Term::App { function, parameter } => {
            let waiting = stack.push(FrameModel::Argument { function: *function, env });
            let s1 = evaluating(*parameter, env, waiting);
            assert(drive(host, start) == s1);
            lemma_run_has_result(host, *parameter, env, waiting, n0);
            let f1 = choose|fuel: nat| within(host, *parameter, env, n0, fuel);
            let t1 = turns(host, *parameter, env, f1);
            lemma_machine_evaluates(host, *parameter, env, f1, waiting);
            match eval_spec(host, *parameter, env, f1) {
                Some(Ok(argument)) => {
                    let held = stack.push(FrameModel::Function { parameter: argument });
                    let s2 = evaluating(*function, env, held);
                    assert(waiting.drop_last() =~= stack);
                    assert(drive(host, returning(argument, waiting)) == s2);
                    lemma_rest(host, s1, n0, t1, returning(argument, waiting));
                    let n1 = (n0 - t1 - 1) as nat;
                    lemma_run_has_result(host, *function, env, held, n1);
                    let f2 = choose|fuel: nat| within(host, *function, env, n1, fuel);
                    let t2 = turns(host, *function, env, f2);
                    lemma_machine_evaluates(host, *function, env, f2, held);
                    assert(held.drop_last() =~= stack);
                    match eval_spec(host, *function, env, f2) {
                        Some(Ok(Value::Closure { var, body, context })) => {
                            let callee = Value::Closure { var, body, context };
                            let inner = context.insert(var, argument);
                            let s3 = evaluating(body, inner, stack);
                            assert(drive(host, returning(callee, held)) == s3);
                            lemma_rest(host, s2, n1, t2, returning(callee, held));
                            let n2 = (n1 - t2 - 1) as nat;
                            lemma_run_has_result(host, body, inner, stack, n2);
                            let f3 = choose|fuel: nat| within(host, body, inner, n2, fuel);
                            let m = if f1 >= f2 && f1 >= f3 {
                                f1
                            } else if f2 >= f3 {
                                f2
                            } else {
                                f3
                            };
                            lemma_more_fuel(host, *parameter, env, f1, m);
                            lemma_more_fuel(host, *function, env, f2, m);
                            lemma_more_fuel(host, body, inner, f3, m);
                            assert(within(host, term, env, n, m + 1));
                        },
                        Some(Ok(other)) => {
                            lemma_rest(host, s2, n1, t2, returning(other, held));
                            let m = if f1 >= f2 {
                                f1
                            } else {
                                f2
                            };
                            lemma_more_fuel(host, *parameter, env, f1, m);
                            lemma_more_fuel(host, *function, env, f2, m);
                            assert(within(host, term, env, n, m + 1));
                        },
                        _ => {
                            let m = if f1 >= f2 {
                                f1
                            } else {
                                f2
                            };
                            lemma_more_fuel(host, *parameter, env, f1, m);
                            lemma_more_fuel(host, *function, env, f2, m);
                            assert(within(host, term, env, n, m + 1));
                        },
                    }
                },
                _ => {
                    assert(within(host, term, env, n, f1 + 1));
                },
            }
        },
        _ => {},
    }
}

/// The same of an arithmetic operation.
proof fn lemma_arithmetic_has_result(
    host: Host,
    term: Term,
    env: Map<Seq<char>, Value>,
    stack: Seq<FrameModel>,
    n: nat,
)
    requires
        term is Arithmetic,
        run(host, evaluating(term, env, stack), n).control is Halted,
    ensures
        exists|fuel: nat| within(host, term, env, n, fuel),
    decreases n, 0nat,
{
    let start = evaluating(term, env, stack);
    lemma_rest(host, start, n, 0, start);
    let n0 = (n - 1) as nat;
    match term {
        Term::Arithmetic { operation, lhs, rhs } => {
            let waiting = stack.push(FrameModel::ArithmeticLeft { operation, rhs: *rhs, env });
            let s1 = evaluating(*lhs, env, waiting);
            assert(drive(host, start) == s1);
            lemma_run_has_result(host, *lhs, env, waiting, n0);
            let f1 = choose|fuel: nat| within(host, *lhs, env, n0, fuel);
            let t1 = turns(host, *lhs, env, f1);
            lemma_machine_evaluates(host, *lhs, env, f1, waiting);
            match eval_spec(host, *lhs, env, f1) {
                Some(Ok(left)) => {
                    let held = stack.push(FrameModel::ArithmeticRight { operation, lhs: left });
                    let s2 = evaluating(*rhs, env, held);
                    assert(waiting.drop_last() =~= stack);
                    assert(drive(host, returning(left, waiting)) == s2);
                    lemma_rest(host, s1, n0, t1, returning(left, waiting));
                    let n1 = (n0 - t1 - 1) as nat;
                    lemma_run_has_result(host, *rhs, env, held, n1);
                    let f2 = choose|fuel: nat| within(host, *rhs, env, n1, fuel);
                    let t2 = turns(host, *rhs, env, f2);
                    lemma_machine_evaluates(host, *rhs, env, f2, held);
                    assert(held.drop_last() =~= stack);
                    let m = if f1 >= f2 {
                        f1
                    } else {
                        f2
                    };
                    lemma_more_fuel(host, *lhs, env, f1, m);
                    lemma_more_fuel(host, *rhs, env, f2, m);
                    match eval_spec(host, *rhs, env, f2) {
                        Some(Ok(right)) => {
                            lemma_rest(host, s2, n1, t2, returning(right, held));
                            if left is Number && right is Number {
                                let asked = drive(host, returning(right, held));
                                lemma_run_step(host, asked, (n1 - t2 - 2) as nat);
                                if n1 - t2 - 1 == 0 {
                                    assert(run(host, asked, 0) == asked);
                                }
                            }
                            assert(within(host, term, env, n, m + 1));
                        },
                        _ => {
                            assert(within(host, term, env, n, m + 1));
                        },
                    }
                },
                _ => {
                    assert(within(host, term, env, n, f1 + 1));
                },
            }
        },
        _ => {},
    }
}

/// The same of a comparison.
proof fn lemma_comparison_has_result(
    host: Host,
    term: Term,
    env: Map<Seq<char>, Value>,
    stack: Seq<FrameModel>,
    n: nat,
)
    requires
        term is Comparison,
        run(host, evaluating(term, env, stack), n).control is Halted,
    ensures
        exists|fuel: nat| within(host, term, env, n, fuel),
    decreases n, 0nat,
{
    let start = evaluating(term, env, stack);
    lemma_rest(host, start, n, 0, start);
    let n0 = (n - 1) as nat;
    match term {
        Term::Comparison { operation, lhs, rhs } => {
            let waiting = stack.push(FrameModel::ComparisonLeft { operation, rhs: *rhs, env });
            let s1 = evaluating(*lhs, env, waiting);
            assert(drive(host, start) == s1);
            lemma_run_has_result(host, *lhs, env, waiting, n0);
            let f1 = choose|fuel: nat| within(host, *lhs, env, n0, fuel);
            let t1 = turns(host, *lhs, env, f1);
            lemma_machine_evaluates(host, *lhs, env, f1, waiting);
            match eval_spec(host, *lhs, env, f1) {
                Some(Ok(left)) => {
                    let held = stack.push(FrameModel::ComparisonRight { operation, lhs: left });
                    let s2 = evaluating(*rhs, env, held);
                    assert(waiting.drop_last() =~= stack);
                    assert(drive(host, returning(left, waiting)) == s2);
                    lemma_rest(host, s1, n0, t1, returning(left, waiting));
                    let n1 = (n0 - t1 - 1) as nat;
                    lemma_run_has_result(host, *rhs, env, held, n1);
                    let f2 = choose|fuel: nat| within(host, *rhs, env, n1, fuel);
                    let t2 = turns(host, *rhs, env, f2);
                    lemma_machine_evaluates(host, *rhs, env, f2, held);
                    assert(held.drop_last() =~= stack);
                    let m = if f1 >= f2 {
                        f1
                    } else {
                        f2
                    };
                    lemma_more_fuel(host, *lhs, env, f1, m);
                    lemma_more_fuel(host, *rhs, env, f2, m);
                    match eval_spec(host, *rhs, env, f2) {
                        Some(Ok(right)) => {
                            lemma_rest(host, s2, n1, t2, returning(right, held));
                            if left is Number && right is Number {
                                let asked = drive(host, returning(right, held));
                                lemma_run_step(host, asked, (n1 - t2 - 2) as nat);
                                if n1 - t2 - 1 == 0 {
                                    assert(run(host, asked, 0) == asked);
                                }
                            }
                            assert(within(host, term, env, n, m + 1));
                        },
                        _ => {
                            assert(within(host, term, env, n, m + 1));
                        },
                    }
                },
                _ => {
                    assert(within(host, term, env, n, f1 + 1));
                },
            }
        },
        _ => {},
    }
}

/// The same of a conditional.
proof fn lemma_conditional_has_result(
    host: Host,
    term: Term,
    env: Map<Seq<char>, Value>,
    stack: Seq<FrameModel>,
    n: nat,
)
    requires
        term is Conditional,
        run(host, evaluating(term, env, stack), n).control is Halted,
    ensures
        exists|fuel: nat| within(host, term, env, n, fuel),
    decreases n, 0nat,
{
    let start = evaluating(term, env, stack);
    lemma_rest(host, start, n, 0, start);
    let n0 = (n - 1) as nat;
    match term {
        Term::Conditional { condition, true_branch, false_branch } => {
            let waiting = stack.push(
                FrameModel::Condition {
                    true_branch: *true_branch,
                    false_branch: *false_branch,
                    env,
                },
            );
            let s1 = evaluating(*condition, env, waiting);
            assert(drive(host, start) == s1);
            lemma_run_has_result(host, *condition, env, waiting, n0);
            let f1 = choose|fuel: nat| within(host, *condition, env, n0, fuel);
            let t1 = turns(host, *condition, env, f1);
            lemma_machine_evaluates(host, *condition, env, f1, waiting);
            assert(waiting.drop_last() =~= stack);
            match eval_spec(host, *condition, env, f1) {
                Some(Ok(Value::Boolean(b))) => {
                    let branch = if b {
                        *true_branch
                    } else {
                        *false_branch
                    };
                    let decided = returning(Value::Boolean(b), waiting);
                    let s2 = evaluating(branch, env, stack);
                    assert(drive(host, decided) == s2);
                    lemma_rest(host, s1, n0, t1, decided);
                    let n1 = (n0 - t1 - 1) as nat;
                    lemma_run_has_result(host, branch, env, stack, n1);
                    let f2 = choose|fuel: nat| within(host, branch, env, n1, fuel);
                    let m = if f1 >= f2 {
                        f1
                    } else {
                        f2
                    };
                    lemma_more_fuel(host, *condition, env, f1, m);
                    lemma_more_fuel(host, branch, env, f2, m);
                    assert(within(host, term, env, n, m + 1));
                },
                Some(Ok(other)) => {
                    lemma_rest(host, s1, n0, t1, returning(other, waiting));
                    assert(within(host, term, env, n, f1 + 1));
                },
                _ => {
                    assert(within(host, term, env, n, f1 + 1));
                },
            }
        },
        _ => {},
    }
}

/// The machine finishes only as `eval_spec` says: where the machine that
/// begins with a term, driven by the host, has finished with a result, the
/// term has that result.
pub proof fn lemma_machine_finishes_as_defined(
    host: Host,
    term: Term,
    n: nat,
    result: Result<Value, Failure>,
)
    requires
        finished(run(host, initial(term), n), result),
    ensures
        exists|fuel: nat| eval_spec(host, term, Map::empty(), fuel) == Some(result),
{
    let start = initial(term);
    let env = Map::<Seq<char>, Value>::empty();
    lemma_run_has_result(host, term, env, Seq::empty(), n);
    let fuel = choose|fuel: nat| within(host, term, env, n, fuel);
    let t = turns(host, term, env, fuel);
    lemma_machine_evaluates(host, term, env, fuel, Seq::empty());
    lemma_run_add(host, start, t, (n - t) as nat);
    match eval_spec(host, term, env, fuel)->0 {
        Ok(value) => {
            let last = returning(value, Seq::empty());
            lemma_rest(host, start, n, t, last);
            lemma_run_finished(host, drive(host, last), (n - t - 1) as nat);
            lemma_run_step(host, last, (n - t - 1) as nat);
        },
        Err(failure) => {
            lemma_run_finished(host, run(host, start, t), (n - t) as nat);
        },
    }
    assert(eval_spec(host, term, env, fuel) == Some(result));
}

/// A closure keeps what it captured: the value of an application is the
/// value of the closure's body in the environment that the closure holds,
/// with its parameter bound to the argument. The environment in which the
/// application stands plays no part.
pub proof fn lemma_application(
    host: Host,
    function: Term,
    parameter: Term,
    env: Map<Seq<char>, Value>,
    fuel: nat,
)
    requires
        eval_spec(host, parameter, env, fuel) matches Some(Ok(_)),
        eval_spec(host, function, env, fuel) matches Some(Ok(callee)) && callee is Closure,
    ensures
        ({
            let argument = eval_spec(host, parameter, env, fuel)->0->Ok_0;
            let callee = eval_spec(host, function, env, fuel)->0->Ok_0;
            eval_spec(
                host,
                Term::App { function: Box::new(function), parameter: Box::new(parameter) },
                env,
                fuel + 1,
            ) == eval_spec(
                host,
                callee->body,
                callee->context.insert(callee->var, argument),
                fuel,
            )
        }),
{
}

/// A closure whose body is a variable that it captured yields the captured
/// value, whatever the argument.
pub proof fn lemma_captured_value(
    host: Host,
    name: Seq<char>,
    var: Seq<char>,
    context: Map<Seq<char>, Value>,
    argument: Value,
)
    requires
        context.contains_key(name),
        name != var,
    ensures
        eval_spec(host, Term::Var { name }, context.insert(var, argument), 1) == Some(
            Ok::<Value, Failure>(context[name]),
        ),
{
}

/// A variable that nothing binds fails with its name.
pub proof fn lemma_unbound_variable(
    host: Host,
    name: Seq<char>,
    env: Map<Seq<char>, Value>,
    fuel: nat,
)
    requires
        !env.contains_key(name),
        fuel > 0,
    ensures
        eval_spec(host, Term::Var { name }, env, fuel) == Some(
            Err::<Value, Failure>(Failure::NameError { name }),
        ),
{
}

/// Arithmetic and comparison fail where an operand is no number, and never
/// where both are numbers, whatever the numbers.
pub proof fn lemma_operands(
    host: Host,
    operation: ArithmeticOp,
    relation: ComparisonOp,
    lhs: Value,
    rhs: Value,
)
    ensures
        operate(host, operation, lhs, rhs) is Ok <==> lhs is Number && rhs is Number,
        compare(host, relation, lhs, rhs) is Ok <==> lhs is Number && rhs is Number,
        operate(host, operation, lhs, rhs) is Err ==> operate(host, operation, lhs, rhs)->Err_0
            is TypeError,
        compare(host, relation, lhs, rhs) is Err ==> compare(host, relation, lhs, rhs)->Err_0
            is TypeError,
{
}

} // verus!
