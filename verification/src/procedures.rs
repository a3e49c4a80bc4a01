//! Small procedures: units of work whose only meaningful behaviour is that
//! they complete, and a few boolean functions. They serve as the payloads
//! that the harness runs.

use vstd::prelude::*;
use crate::my_module;
use crate::this::is::long::nested_noop;
use crate::this::is::long::nested_noop as n_loop;

verus! {

/// The unit type under another name.
pub type Unit = ();

/// The boolean type under another name.
pub type Boolean = bool;

/// Does nothing and returns the unit value.
pub fn noop() -> (u: ())
    ensures
        u == (),
{
}

/// Calls [`noop`] and hands its unit result on.
pub fn calls_noop() -> (u: ())
    ensures
        u == (),
{
    noop()
}

/// Does nothing; the unit result is left unwritten.
pub fn noop_implicit() -> (u: ())
    ensures
        u == (),
{
}

/// Does nothing; the unit result is written out.
pub fn noop_too() -> (u: ())
    ensures
        u == (),
{
}

/// Does nothing; the unit result is written through its alias.
pub fn also_noop() -> (u: Unit)
    ensures
        u == (),
{
}

/// Hands its unit argument back.
pub fn takes_unit(u: Unit) -> (r: Unit)
    ensures
        r == u,
{
    u
}

/// Feeds the result of [`noop`] to [`takes_unit`].
pub fn uses_takes_unit() -> (u: ())
    ensures
        u == (),
{
    takes_unit(noop())
}

/// Runs the procedure `p` once: what `p` guarantees of its run holds
/// afterwards.
pub fn takes_procedure<P: Fn()>(p: P) -> (u: ())
    requires
        call_requires(p, ()),
    ensures
        call_ensures(p, (), u),
{
    p()
}

/// Runs the procedure `p` once, with the unit result type spelled out.
pub fn takes_procedure_explicit<P: Fn() -> ()>(p: P) -> (u: ())
    requires
        call_requires(p, ()),
    ensures
        call_ensures(p, (), u),
{
    p()
}

/// Hands [`noop`] to [`takes_procedure`].
pub fn uses_takes_procedure() -> (u: ())
    ensures
        u == (),
{
    takes_procedure(noop)
}

/// Runs [`noop`] directly and then through [`takes_procedure`].
pub fn sequence_noops() -> (u: ())
    ensures
        u == (),
{
    noop();
    takes_procedure(noop)
}

/// Calls the `noop` of another module by its path.
pub fn uses_module() -> (u: ())
    ensures
        u == (),
{
    my_module::noop()
}

/// Calls a deeply nested procedure twice, once by its imported name and once
/// by a shorter alias.
pub fn uses_use() -> (u: ())
    ensures
        u == (),
{
    nested_noop();
    n_loop()
}

/// Runs `f`, then `delay`, then `f` again: all that a caller learns is that
/// each step completed before the next began.
pub fn call_twice_delay<P: Fn(), D: Fn()>(f: P, delay: D) -> (u: ())
    requires
        call_requires(f, ()),
        call_requires(delay, ()),
    ensures
        call_ensures(f, (), u),
        call_ensures(delay, (), u),
{
    f();
    delay();
    f()
}

/// A procedure that stands for an effect on the outside world.
pub fn fire_the_missiles() -> (u: ())
    ensures
        u == (),
{
}

/// Runs [`fire_the_missiles`] twice, with `delay` in between.
pub fn use_call_twice_delay_procedure<D: Fn()>(delay: D) -> (u: ())
    requires
        call_requires(delay, ()),
    ensures
        call_ensures(delay, (), u),
{
    call_twice_delay(fire_the_missiles, delay)
}

/// A procedure that stands for a change to some shared mathematical object.
pub fn increment_all_values_in_matrix_by_1() -> (u: ())
    ensures
        u == (),
{
}

/// Runs [`increment_all_values_in_matrix_by_1`] twice, with `delay` in
/// between.
pub fn use_call_twice_delay_math<D: Fn()>(delay: D) -> (u: ())
    requires
        call_requires(delay, ()),
    ensures
        call_ensures(delay, (), u),
{
    call_twice_delay(increment_all_values_in_matrix_by_1, delay)
}

/// Always `true`.
pub fn returns_true() -> (b: bool)
    ensures
        b,
{
    true
}

/// Always `false`.
pub fn returns_false() -> (b: bool)
    ensures
        !b,
{
    false
}

/// The identity on booleans, written with a branch.
pub fn uses_if(b: bool) -> (r: bool)
    ensures
        r == b,
{
    if b {
        true
    } else {
        false
    }
}

/// Boolean negation, written with a branch.
pub fn not(b: bool) -> (r: bool)
    ensures
        r == !b,
{
    if b {
        false
    } else {
        true
    }
}

/// Runs `r` exactly when `answer` holds; otherwise does nothing.
pub fn run_it<P: Fn()>(r: P, answer: bool) -> (u: ())
    requires
        answer ==> call_requires(r, ()),
    ensures
        answer ==> call_ensures(r, (), u),
{
    if answer {
        r()
    }
}

/// Returns what `r` returns when `answer` holds, and `false` without
/// running `r` otherwise.
pub fn it_runs<P: Fn() -> bool>(r: P, answer: bool) -> (b: bool)
    requires
        answer ==> call_requires(r, ()),
    ensures
        answer ==> call_ensures(r, (), b),
        !answer ==> !b,
{
    if answer {
        return r();
    }
    false
}

} // verus!
