use glasgae::base::data::constant::Const;
use glasgae::base::data::either::Either;
use glasgae::base::data::functor::{AppA, ChainM, Functor, PureA};
use glasgae::base::data::identity::Identity;
use glasgae::base::data::maybe::Maybe;
use glasgae::base::data::pointed::Pointed;
use glasgae::transformers::class::MonadTrans;
use glasgae::transformers::errors::Errors;
use glasgae::transformers::except::{Except, ExceptT};
use glasgae::transformers::identity::IdentityT;
use glasgae::transformers::lift::Lift;
use glasgae::transformers::maybe::MaybeT;

type E<A> = Except<String, A>;

#[test]
fn except_throw_catch() {
    let t: E<u8> = ExceptT::throw("boom".to_string());
    assert_eq!(t.clone().run(), Either::Left("boom".to_string()));
    // throw(e).catch(h) == h(e)
    let c: Except<u8, u8> = t.clone().catch(|e: String| ExceptT::new_t(Identity(Either::Right(e.len() as u8))));
    assert_eq!(c.run(), Either::Right(4));
    // lift(m).catch(h) == lift(m)
    let l: E<u8> = MonadTrans::lift(Identity(3));
    let c: Except<u8, u8> = l.catch(|_e: String| ExceptT::new_t(Identity(Either::Left(0))));
    assert_eq!(c.run(), Either::Right(3));
    // throw(e).chain_m(k) == throw(e)
    let k = t.clone().chain_m(|a: u8| E::<u16>::return_m(a as u16));
    assert_eq!(k.run(), Either::Left("boom".to_string()));
    let h: Except<u8, u8> = ExceptT::handle(|e: String| ExceptT::new_t(Identity(Either::Right(e.len() as u8))), t);
    assert_eq!(h.run(), Either::Right(4));
}

#[test]
fn except_map_with_try_finally() {
    let r: E<u8> = E::<u8>::return_m(2);
    assert_eq!(r.map(|x: u8| x * 5).run(), Either::Right(10));
    let t: E<u8> = ExceptT::throw("e".to_string());
    assert_eq!(t.clone().with(|e: String| e.len()).run(), Either::Left(1));
    assert_eq!(t.clone().try_().run(), Either::Right(Either::Left("e".to_string())));
    assert_eq!(E::<u8>::return_m(1).try_().run(), Either::Right(Either::Right(1)));
    let ok_closer: E<()> = E::<()>::return_m(());
    assert_eq!(E::<u8>::return_m(1).finally(ok_closer.clone()).run(), Either::Right(1));
    assert_eq!(t.clone().finally(ok_closer).run(), Either::Left("e".to_string()));
    let bad_closer: E<()> = ExceptT::throw("c".to_string());
    assert_eq!(E::<u8>::return_m(1).finally(bad_closer).run(), Either::Left("c".to_string()));
    let n: E<u8> = ExceptT::new(Either::Right(4));
    assert_eq!(n.run_t(), Identity(Either::Right(4)));
    assert_eq!(E::<u8>::return_m(1).then_m(E::<u8>::return_m(2)).run(), Either::Right(2));
    assert_eq!(E::<u8>::return_m(3).fmap(|x: u8| x + 1).run(), Either::Right(4));
    let f: E<fn(u8) -> u8> = E::<fn(u8) -> u8>::pure_a((|x: u8| x * 2) as fn(u8) -> u8);
    assert_eq!(AppA::<u8, u8>::app_a(f, E::<u8>::return_m(21)).run(), Either::Right(42));
}

#[test]
fn maybe_t_ops() {
    let m: MaybeT<Identity<Maybe<u8>>> = MaybeT::new(Maybe::Just(2));
    assert_eq!(m.chain_m(|x: u8| MaybeT::<Identity<Maybe<u8>>>::return_m(x + 1)).run(), Identity(Maybe::Just(3)));
    let n: MaybeT<Identity<Maybe<u8>>> = MaybeT(Identity(Maybe::Nothing));
    assert_eq!(n.chain_m(|x: u8| MaybeT::<Identity<Maybe<u8>>>::return_m(x + 1)).run(), Identity(Maybe::Nothing));
    let f: MaybeT<Identity<Maybe<fn(u8) -> u8>>> = MaybeT::pure_a((|x: u8| x + 1) as fn(u8) -> u8);
    assert_eq!(AppA::<u8, u8>::app_a(f, MaybeT(Identity(Maybe::Just(1)))).run(), Identity(Maybe::Just(2)));
    assert_eq!(MaybeT(Identity(Maybe::Just(1u8))).fmap(|x: u8| x * 7).run(), Identity(Maybe::Just(7)));
    assert_eq!(MaybeT(Identity(Maybe::Just(1u8))).map(|Identity(m): Identity<Maybe<u8>>| Identity(m.fmap(|x: u8| x + 1))).run(), Identity(Maybe::Just(2)));
    assert_eq!(MaybeT(Identity(Maybe::Just(1u8))).then_m(MaybeT(Identity(Maybe::Just(5u8)))).run(), Identity(Maybe::Just(5)));
}

#[test]
fn identity_t_ops() {
    let m = IdentityT::new(Maybe::Just(2u8));
    assert_eq!(m.fmap(|x: u8| x + 1).run(), Maybe::Just(3));
    let m = IdentityT::new(Maybe::Just(2u8));
    assert_eq!(m.chain_m(|x: u8| IdentityT::new(Maybe::Just(x * 2))).run(), Maybe::Just(4));
    let l: IdentityT<Maybe<u8>> = MonadTrans::lift(Maybe::Just(9));
    assert_eq!(l.run(), Maybe::Just(9));
    let p: IdentityT<Maybe<u8>> = IdentityT::pure_a(1);
    assert_eq!(p.map(|m: Maybe<u8>| m.fmap(|x: u8| x + 1)).run(), Maybe::Just(2));
}

#[derive(Debug, Clone, PartialEq)]
struct Msgs(Vec<String>);

impl Pointed for Msgs {
    type Pointed = u8;
}

#[test]
fn lift_and_errors() {
    let e: Errors<Msgs> = Errors::failure(Msgs(vec!["bad".to_string()]));
    assert_eq!(e.run(), Either::Left(Msgs(vec!["bad".to_string()])));
    let p: Errors<Msgs> = Lift::Pure(3);
    assert_eq!(p.run(), Either::Right(3));
    let from: Errors<Msgs> = Either::Right(5).into();
    assert_eq!(from.run(), Either::Right(5));
    let l: Lift<Maybe<u8>> = Lift::Pure(2);
    assert_eq!(l.elim(|x: u8| x + 1, |_m: Maybe<u8>| 0), 3);
    let l: Lift<Maybe<u8>> = Lift::Other(Maybe::Just(4));
    assert_eq!(l.unlift(), Maybe::Just(4));
    let l: Lift<Maybe<u8>> = Lift::Pure(4);
    assert_eq!(l.unlift(), Maybe::Just(4));
    let c = Const::<u8, ()>::new(1u8);
    assert_eq!(c.0, 1);
}

#[test]
fn lift_fold_map() {
    let p: Lift<Vec<u8>> = Lift::Pure(3);
    assert_eq!(p.fold_map(|x: u8| vec![x, x]), vec![3, 3]);
    let o: Lift<Vec<u8>> = Lift::Other(vec![1, 2, 3]);
    assert_eq!(o.fold_map(|x: u8| glasgae::base::data::monoid::Sum(x as u32)), glasgae::base::data::monoid::Sum(6));
    let o: Lift<Vec<u8>> = Lift::Other(vec![1, 2]);
    assert_eq!(o.fold_map(|x: u8| vec![x]), vec![1, 2]);
}

#[test]
fn maybe_t_over_other_monads() {
    let m: MaybeT<Vec<Maybe<u8>>> = MaybeT(vec![Maybe::Just(1), Maybe::Nothing, Maybe::Just(3)]);
    let r = m.chain_m(|x: u8| MaybeT(vec![Maybe::Just(x), Maybe::Just(x * 10)]));
    assert_eq!(r.0, vec![Maybe::Just(1), Maybe::Just(10), Maybe::Nothing, Maybe::Just(3), Maybe::Just(30)]);
    assert_eq!(MaybeT::<Vec<Maybe<u8>>>::pure_a(4).0, vec![Maybe::Just(4)]);
    let n: MaybeT<Option<Maybe<u8>>> = MaybeT(Some(Maybe::Nothing));
    let r = n.chain_m(|x: u8| MaybeT(Some(Maybe::Just(x + 1))));
    assert_eq!(r.0, Some(Maybe::Nothing));
}

#[test]
fn except_t_over_other_monads() {
    let t: ExceptT<Option<Either<String, u8>>> = ExceptT::throw("boom".to_string());
    assert_eq!(t.clone().0, Some(Either::Left("boom".to_string())));
    let skipped = t.clone().chain_m(|x: u8| ExceptT(Some(Either::<String, u8>::Right(x + 1))));
    assert_eq!(skipped.0, Some(Either::Left("boom".to_string())));
    let handled = t.catch(|e: String| ExceptT(Some(Either::<String, u8>::Right(e.len() as u8))));
    assert_eq!(handled.0, Some(Either::Right(4)));
    let v: ExceptT<Vec<Either<u8, u8>>> = ExceptT(vec![Either::Left(1), Either::Right(2)]);
    let handled = v.catch(|e: u8| ExceptT(vec![Either::<u8, u8>::Right(e * 100), Either::Right(e)]));
    assert_eq!(handled.0, vec![Either::Right(100), Either::Right(1), Either::Right(2)]);
    let ok: ExceptT<Vec<Either<u8, u8>>> = ExceptT(vec![Either::Right(5), Either::Left(7)]);
    let chained = ok.chain_m(|x: u8| ExceptT(vec![Either::<u8, u8>::Right(x + 1)]));
    assert_eq!(chained.0, vec![Either::Right(6), Either::Left(7)]);
}

fn plus_one(x: u8) -> u8 {
    x + 1
}

fn times_ten(x: u8) -> u8 {
    x * 10
}

#[test]
fn app_a_over_other_monads() {
    let mf: MaybeT<Vec<Maybe<fn(u8) -> u8>>> =
        MaybeT(vec![Maybe::Just(plus_one as fn(u8) -> u8), Maybe::Nothing, Maybe::Just(times_ten as fn(u8) -> u8)]);
    let mx: MaybeT<Vec<Maybe<u8>>> = MaybeT(vec![Maybe::Just(1), Maybe::Nothing]);
    let r: MaybeT<Vec<Maybe<u8>>> = mf.app_a(mx);
    assert_eq!(r.0, vec![Maybe::Just(2), Maybe::Nothing, Maybe::Nothing, Maybe::Just(10), Maybe::Nothing]);
    let nothing: MaybeT<Option<Maybe<fn(u8) -> u8>>> = MaybeT(Some(Maybe::Nothing));
    let r: MaybeT<Option<Maybe<u8>>> = nothing.app_a(MaybeT(None::<Maybe<u8>>));
    assert_eq!(r.0, Some(Maybe::Nothing));
    let ef: ExceptT<Option<Either<String, fn(u8) -> u8>>> = ExceptT(Some(Either::Right(plus_one as fn(u8) -> u8)));
    let r: ExceptT<Option<Either<String, u8>>> = ef.app_a(ExceptT(Some(Either::<String, u8>::Right(4))));
    assert_eq!(r.0, Some(Either::Right(5)));
    let ethrow: ExceptT<Option<Either<String, fn(u8) -> u8>>> = ExceptT(Some(Either::Left("f".to_string())));
    let r: ExceptT<Option<Either<String, u8>>> = ethrow.app_a(ExceptT(Some(Either::<String, u8>::Left("x".to_string()))));
    assert_eq!(r.0, Some(Either::Left("f".to_string())));
}

#[test]
fn finally_over_other_monads() {
    let m: ExceptT<Vec<Either<u8, char>>> = ExceptT(vec![Either::Right('a'), Either::Left(2)]);
    let closer: ExceptT<Vec<Either<u8, ()>>> = ExceptT(vec![Either::Right(()), Either::Left(9)]);
    let r: ExceptT<Vec<Either<u8, char>>> = m.finally(closer);
    assert_eq!(r.0, vec![Either::Right('a'), Either::Left(9), Either::Left(2), Either::Left(9)]);
    let m: ExceptT<Option<Either<u8, char>>> = ExceptT(Some(Either::Left(3)));
    let ok: ExceptT<Option<Either<u8, ()>>> = ExceptT(Some(Either::Right(())));
    let r: ExceptT<Option<Either<u8, char>>> = m.finally(ok);
    assert_eq!(r.0, Some(Either::Left(3)));
    let m: ExceptT<Option<Either<u8, char>>> = ExceptT(Some(Either::Right('z')));
    let none: ExceptT<Option<Either<u8, ()>>> = ExceptT(None);
    let r: ExceptT<Option<Either<u8, char>>> = m.finally(none);
    assert_eq!(r.0, None);
}

#[test]
fn errors_collect() {
    let f: Lift<Const<Vec<String>, fn(u8) -> u8>> = Lift::failure(vec!["a".to_string()]);
    let a: Lift<Const<Vec<String>, u8>> = Lift::failure(vec!["b".to_string()]);
    let strs: Errors<Vec<String>> = Errors::failure(vec!["s".to_string()]);
    assert_eq!(strs.run(), Either::Left(vec!["s".to_string()]));
    let r: Lift<Const<Vec<String>, u8>> = AppA::<u8, u8>::app_a(f, a);
    assert_eq!(r.run(), Either::Left(vec!["a".to_string(), "b".to_string()]));
    let g: Lift<Const<Vec<String>, fn(u8) -> u8>> = Lift::Pure(plus_one as fn(u8) -> u8);
    let bad: Lift<Const<Vec<String>, u8>> = Lift::failure(vec!["e".to_string()]);
    let r: Lift<Const<Vec<String>, u8>> = AppA::<u8, u8>::app_a(g, bad);
    assert_eq!(r.run(), Either::Left(vec!["e".to_string()]));
    let g: Lift<Const<Vec<String>, fn(u8) -> u8>> = Lift::Pure(plus_one as fn(u8) -> u8);
    let ok: Lift<Const<Vec<String>, u8>> = PureA::pure_a(4);
    let r: Lift<Const<Vec<String>, u8>> = AppA::<u8, u8>::app_a(g, ok);
    assert_eq!(r.run(), Either::Right(5));
    let f: Lift<Const<Vec<String>, fn(u8) -> u8>> = Lift::failure(vec!["f".to_string()]);
    let r: Lift<Const<Vec<String>, u8>> = AppA::<u8, u8>::app_a(f, Lift::Pure(1));
    assert_eq!(r.run(), Either::Left(vec!["f".to_string()]));
}
