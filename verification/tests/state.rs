use glasgae::base::data::identity::Identity;
use glasgae::transformers::state::traverse::{filter_m, fold_m, map_m, map_m_, sequence_a};
use glasgae::transformers::state::{State, StateT};

#[derive(Debug, Copy, Clone, PartialEq, Eq, PartialOrd, Ord, Hash)]
pub enum TurnstileState {
    Locked,
    Unlocked,
}

#[derive(Debug, Copy, Clone, PartialEq, Eq, PartialOrd, Ord, Hash)]
pub enum TurnstileOutput {
    Thank,
    Open,
    Tut,
}

#[derive(Debug, Copy, Clone, PartialEq, Eq, PartialOrd, Ord, Hash)]
enum TurnstileInput {
    Coin,
    Push,
}

use TurnstileInput::{Coin, Push};
use TurnstileOutput::{Open, Thank, Tut};
use TurnstileState::{Locked, Unlocked};

type S = StateT<TurnstileState, (), ()>;

fn coin(_: TurnstileState) -> (TurnstileOutput, TurnstileState) {
    (Thank, Unlocked)
}

fn push(state: TurnstileState) -> (TurnstileOutput, TurnstileState) {
    match state {
        Locked => (Tut, Locked),
        Unlocked => (Open, Locked),
    }
}

fn monday(s0: TurnstileState) -> ([TurnstileOutput; 5], TurnstileState) {
    let (a1, s1) = coin(s0);
    let (a2, s2) = push(s1);
    let (a3, s3) = push(s2);
    let (a4, s4) = coin(s3);
    let (a5, s5) = push(s4);
    ([a1, a2, a3, a4, a5], s5)
}

fn coin_s() -> State<TurnstileState, TurnstileOutput, impl Fn(TurnstileState) -> Identity<(TurnstileOutput, TurnstileState)>> {
    S::new(coin)
}

fn push_s() -> State<TurnstileState, TurnstileOutput, impl Fn(TurnstileState) -> Identity<(TurnstileOutput, TurnstileState)>> {
    S::new(push)
}

fn turn(input: TurnstileInput, state: TurnstileState) -> (TurnstileOutput, TurnstileState) {
    match (input, state) {
        (Coin, _) => (Thank, Unlocked),
        (Push, Unlocked) => (Open, Locked),
        (Push, Locked) => (Tut, Locked),
    }
}

fn turn_s(input: TurnstileInput) -> State<TurnstileState, TurnstileOutput, impl Fn(TurnstileState) -> Identity<(TurnstileOutput, TurnstileState)>> {
    S::new(move |state| turn(input, state))
}

#[test]
fn test_monday() {
    let out = monday(Locked);
    println!("{out:#?}");
    assert_eq!(out, ([Thank, Open, Tut, Thank, Open], Locked));
}

#[test]
fn test_coin_s() {
    let out = coin_s().run_t(Locked);
    println!("{out:#?}");
    assert_eq!(out, Identity((Thank, Unlocked)));
}

#[test]
fn test_monday_s() {
    let out = sequence_a(vec![
        turn_s(Coin),
        turn_s(Push),
        turn_s(Push),
        turn_s(Coin),
        turn_s(Push),
    ])
    .run_t(Locked);

    println!("{out:#?}");
    assert_eq!(out, Identity((vec![Thank, Open, Tut, Thank, Open], Locked)));
}

#[test]
fn test_turnstile() {
    let out = S::put(Locked)
        .then_m(push_s().chain_m(move |check1| {
            S::put(Unlocked).then_m(push_s().chain_m(move |check2| {
                S::put(Locked).then_m(S::return_m(check1 == Tut && check2 == Open))
            }))
        }))
        .run(Unlocked);

    println!("{out:#?}");
    assert_eq!(out, (true, Locked));
}

#[test]
fn test_replicate() {
    let out = push_s().replicate_m(6).eval(Unlocked);
    println!("{out:#?}");
    assert_eq!(out, vec![Open, Tut, Tut, Tut, Tut, Tut]);
}

#[test]
fn test_map_m() {
    let out = map_m(vec![Coin, Push, Push, Coin, Push], turn_s).eval(Locked);

    println!("{out:#?}");
    assert_eq!(out, vec![Thank, Open, Tut, Thank, Open]);
}

fn gets_through_s(input: TurnstileInput) -> State<TurnstileState, bool, impl Fn(TurnstileState) -> Identity<(bool, TurnstileState)>> {
    turn_s(input).chain_m(|output| S::return_m(output == Open))
}

#[test]
fn test_filter_m() {
    let out = filter_m(vec![Coin, Push, Coin, Push, Push, Coin, Push], gets_through_s).eval(Locked);

    println!("{out:#?}");
    assert_eq!(out, vec![Push, Push, Push]);
}

fn inc_if_opens(n: usize, i: TurnstileInput) -> State<TurnstileState, usize, impl Fn(TurnstileState) -> Identity<(usize, TurnstileState)>> {
    gets_through_s(i).chain_m(move |g| {
        if g {
            S::return_m(n + 1)
        } else {
            S::return_m(n)
        }
    })
}

fn count_opens(input: Vec<TurnstileInput>) -> State<TurnstileState, usize, impl Fn(TurnstileState) -> Identity<(usize, TurnstileState)>> {
    fold_m(input, inc_if_opens, 0)
}

#[test]
fn test_fold_m() {
    let out = count_opens(vec![Coin, Push, Coin, Push, Push, Coin, Push]).eval(Locked);
    println!("{out:#?}");
    assert_eq!(out, 3);
}

#[test]
fn state_get_put_modify_gets() {
    let r = StateT::<u32, (), ()>::get().run(7);
    assert_eq!(r, (7, 7));
    let r = StateT::<u32, (), ()>::put(3).run(7);
    assert_eq!(r, ((), 3));
    let r = StateT::<u32, (), ()>::modify(|s: u32| s.wrapping_mul(2)).exec(21);
    assert_eq!(r, 42);
    let r = StateT::<u32, (), ()>::gets(|s: u32| s + 1).run(9);
    assert_eq!(r, (10, 9));
    let r = StateT::<u32, (), ()>::modify_m(|s: u32| Identity(s + 5)).exec(1);
    assert_eq!(r, 6);
}

#[test]
fn state_map_with_fmap() {
    let m = StateT::<u32, (), ()>::new(|s: u32| (s, s + 1));
    let r = m.fmap(|a: u32| a * 10).run(4);
    assert_eq!(r, (40, 5));
    let m = StateT::<u32, (), ()>::new(|s: u32| (s, s + 1));
    let r = m.with(|s: u32| s + 100).run(1);
    assert_eq!(r, (101, 102));
    let m = StateT::<u32, (), ()>::new(|s: u32| (s, s + 1));
    let r = m.map(|(a, s): (u32, u32)| (a + s, s)).run(2);
    assert_eq!(r, (5, 3));
    let m = StateT::<u32, (), ()>::new(|s: u32| (s, s + 1));
    assert_eq!(m.eval_t(2), Identity(2));
    let m = StateT::<u32, (), ()>::new(|s: u32| (s, s + 1));
    assert_eq!(m.exec_t(2), Identity(3));
}

#[test]
fn state_app_a_and_pure() {
    let f = StateT::<u32, (), ()>::new(|s: u32| (move |a: u32| a + s, s * 2));
    let x = StateT::<u32, (), ()>::new(|s: u32| (s, s + 1));
    let r = f.app_a(x).run(3);
    assert_eq!(r, (9, 7));
    let r = StateT::<u32, (), ()>::pure_a(5u8).run(9);
    assert_eq!(r, (5, 9));
}

#[test]
fn state_map_t_and_with_t() {
    let m = StateT::<u32, Identity<(u32, u32)>, _>::new_t(|s: u32| Identity((s, s)));
    let r = m.map_t(|Identity((a, s)): Identity<(u32, u32)>| Identity((a + 1, s))).run_t(1);
    assert_eq!(r, Identity((2, 1)));
    let m = StateT::<u32, Identity<(u32, u32)>, _>::new_t(|s: u32| Identity((s, s)));
    let r = m.with_t(|s: u32| s * 3).run_t(2);
    assert_eq!(r, Identity((6, 6)));
}

#[test]
fn state_map_m_discarding() {
    let r = map_m_(vec![Coin, Push, Push], turn_s).run(Locked);
    assert_eq!(r, ((), Locked));
}

#[test]
fn state_lift() {
    let l = StateT::<u8, (), ()>::lift(Identity(3u8));
    assert_eq!(l.run(9), (3, 9));
    let chained = StateT::<u8, (), ()>::lift(Identity(3u8)).chain_m(|a: u8| StateT::<u8, (), ()>::lift(Identity(a + 1)));
    assert_eq!(chained.run(5), StateT::<u8, (), ()>::lift(Identity(4u8)).run(5));
    assert_eq!(StateT::<u8, (), ()>::lift(Identity(7u8)).run(2), StateT::<u8, (), ()>::return_m(7u8).run(2));
}

#[test]
fn state_over_other_monads() {
    assert_eq!(StateT::<u8, Vec<(u8, u8)>, ()>::get().run_t(3), vec![(3, 3)]);
    assert_eq!(StateT::<u8, Identity<(u8, u8)>, ()>::get().run_t(3), Identity((3, 3)));
    assert_eq!(StateT::<u8, Option<((), u8)>, ()>::put(9).run_t(1), Some(((), 9)));
    assert_eq!(StateT::<u8, Vec<(u8, u8)>, ()>::new(|s: u8| (s, s + 1)).run_t(1), vec![(1, 2)]);
}

#[test]
fn state_stack_over_option_and_vec() {
    let get = StateT::<u8, Option<(u8, u8)>, ()>::get();
    let r = get.chain_m(|s: u8| StateT::<u8, Option<((), u8)>, ()>::put(s + 1));
    assert_eq!(r.run_t(4), Some(((), 5)));
    let fail = StateT::new_t(|_s: u8| None::<(u8, u8)>);
    let r = fail.chain_m(|s: u8| StateT::<u8, Option<((), u8)>, ()>::put(s + 1));
    assert_eq!(r.run_t(4), None);
    let branch = StateT::new_t(|s: u8| vec![(s, s), (s + 1, s + 10)]);
    let r = branch.fmap(|a: u8| a * 2);
    assert_eq!(r.run_t(1), vec![(2, 1), (4, 11)]);
    let then = StateT::new_t(|s: u8| vec![((), s + 1)]).then_m(StateT::<u8, Vec<(u8, u8)>, ()>::get());
    assert_eq!(then.run_t(3), vec![(4, 4)]);
    let fs = StateT::new_t(|s: u8| Some((plus_two as fn(u8) -> u8, s)));
    let xs = StateT::new_t(|s: u8| Some((s, s + 1)));
    assert_eq!(fs.app_a(xs).run_t(5), Some((7, 6)));
}

fn plus_two(x: u8) -> u8 {
    x + 2
}

#[test]
fn put_then_get() {
    let r = StateT::<u8, (), ()>::put(9).then_m(StateT::<u8, (), ()>::get());
    assert_eq!(r.run(1), (9, 9));
}
