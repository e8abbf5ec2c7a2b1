use std::collections::{BTreeMap, BTreeSet, VecDeque};

use glasgae::base::data::either::Either;
use glasgae::base::data::functor::{ChainM, Functor, PureA};
use glasgae::base::data::identity::Identity;
use glasgae::base::data::maybe::Maybe;
use glasgae::base::data::monoid::endo;
use glasgae::base::data::monoid::{Endo, Monoid, Sum};
use glasgae::base::data::semigroup::Semigroup;
use glasgae::base::data::tree::rose_tree::RoseTree;
use glasgae::base::data::traversable::{SequenceA, TraverseT};
use glasgae::transformers::class::MonadTrans;
use glasgae::transformers::except::Except;
use glasgae::transformers::identity::IdentityT;
use glasgae::transformers::maybe::MaybeT;
use glasgae::transformers::reader::ReaderT;
use glasgae::transformers::state::StateT;
use glasgae::transformers::writer::Writer;

fn half(x: u32) -> Maybe<u32> {
    if x % 2 == 0 {
        Maybe::Just(x / 2)
    } else {
        Maybe::Nothing
    }
}

#[test]
fn law_maybe_monad() {
    // left identity
    assert_eq!(Maybe::pure_a(8u32).chain_m(half), half(8));
    // right identity
    assert_eq!(Maybe::Just(5u32).chain_m(Maybe::pure_a), Maybe::Just(5));
    // associativity
    let m = Maybe::Just(16u32);
    assert_eq!(m.chain_m(half).chain_m(half), m.chain_m(|x: u32| half(x).chain_m(half)));
    // functor identity and composition
    assert_eq!(Maybe::Just(3u32).fmap(|x: u32| x), Maybe::Just(3));
    assert_eq!(
        Maybe::Just(3u32).fmap(|x: u32| x + 1).fmap(|x: u32| x * 2),
        Maybe::Just(3u32).fmap(|x: u32| (x + 1) * 2)
    );
}

#[test]
fn law_option_either_identity_vec() {
    assert_eq!(Some(2u8).chain_m(Option::pure_a), Some(2));
    assert_eq!(Option::pure_a(2u8).chain_m(|x: u8| Some(x + 1)), Some(3));
    assert_eq!(Either::<u8, u8>::Right(4).chain_m(Either::pure_a), Either::Right(4));
    assert_eq!(Either::<u8, u8>::Left(4).chain_m(|x: u8| Either::<u8, u8>::Right(x)), Either::Left(4));
    assert_eq!(Identity(4u8).chain_m(Identity::pure_a), Identity(4));
    assert_eq!(vec![1u8, 2].chain_m(|x: u8| vec![x]), vec![1, 2]);
    assert_eq!(Vec::pure_a(3u8).chain_m(|x: u8| vec![x, x + 1]), vec![3, 4]);
    assert_eq!(vec![1u8, 2].fmap(|x: u8| x), vec![1, 2]);
}

#[test]
fn law_maybe_option_round_trip() {
    let m: Maybe<u8> = Maybe::Just(1);
    let o: Option<u8> = m.into();
    let back: Maybe<u8> = o.into();
    assert_eq!(back, Maybe::Just(1));
    let o: Option<u8> = None;
    let m: Maybe<u8> = o.into();
    let back: Option<u8> = m.into();
    assert_eq!(back, None);
}

#[test]
fn law_monoid_identity_and_assoc() {
    let xs = vec![Sum(1u32), Sum(2), Sum(3)];
    assert_eq!(Sum::mconcat(xs), Sum(1u32).assoc_s(Sum(2).assoc_s(Sum(3).assoc_s(Sum::mempty()))));
    assert_eq!(String::from("a").assoc_s(String::mempty()), "a");
    assert_eq!(vec![1u8].assoc_s(vec![2]).assoc_s(vec![3]), vec![1u8].assoc_s(vec![2].assoc_s(vec![3])));
}

#[test]
fn law_transformers_lift() {
    // lift . return = return
    let l: Except<String, u8> = MonadTrans::lift(Identity(3u8));
    assert_eq!(l.run(), Except::<String, u8>::pure_a(3).run());
    let w: Writer<Sum<u32>, u8> = MonadTrans::lift(Identity(3u8));
    assert_eq!(w.run(), Writer::<Sum<u32>, u8>::pure_a(3).run());
    let i: IdentityT<Maybe<u8>> = MonadTrans::lift(Maybe::pure_a(3u8));
    assert_eq!(i.run(), IdentityT::<Maybe<u8>>::pure_a(3).run());
    // lift (m >>= f) = lift m >>= (lift . f)
    let f = |x: u8| Identity(x + 1);
    let lhs: Except<String, u8> = MonadTrans::lift(Identity(3u8).chain_m(f));
    let lifted: Except<String, u8> = MonadTrans::lift(Identity(3u8));
    let rhs = lifted.chain_m(|x: u8| {
        let r: Except<String, u8> = MonadTrans::lift(f(x));
        r
    });
    assert_eq!(lhs.run(), rhs.run());
}

#[test]
fn law_maybe_t_monad() {
    let k = |x: u8| MaybeT::<Identity<Maybe<u8>>>::return_m(x * 2);
    assert_eq!(MaybeT::<Identity<Maybe<u8>>>::pure_a(3).chain_m(k).run(), k(3).run());
    assert_eq!(MaybeT(Identity(Maybe::Just(3u8))).chain_m(MaybeT::pure_a).run(), Identity(Maybe::Just(3)));
}

#[test]
fn law_state_reader() {
    type S = StateT<u32, (), ()>;
    // left identity
    let k = |a: u32| S::new(move |s: u32| (a + s, s + 1));
    assert_eq!(S::return_m(2u32).chain_m(k).run(10), k(2).run(10));
    // right identity
    let m = S::new(|s: u32| (s * 2, s + 1));
    assert_eq!(m.chain_m(|a: u32| S::return_m(a)).run(5), S::new(|s: u32| (s * 2, s + 1)).run(5));
    // withState f m = modify f >> m
    let m = S::new(|s: u32| (s, s + 1));
    let lhs = m.with(|s: u32| s * 3).run(2);
    let rhs = S::modify(|s: u32| s * 3).then_m(S::new(|s: u32| (s, s + 1))).run(2);
    assert_eq!(lhs, rhs);
    // gets f = liftM f get
    assert_eq!(S::gets(|s: u32| s + 1).run(4), S::get().fmap(|s: u32| s + 1).run(4));
    // asks f = liftM f ask
    type R = ReaderT<u32, (), ()>;
    assert_eq!(R::asks(|e: u32| e * 2).run(7), R::ask().fmap(|e: u32| e * 2).run(7));
}

#[test]
fn law_writer_monad() {
    type W = Writer<Vec<u8>, u8>;
    let k = |x: u8| Writer::<Vec<u8>, u8>::new((x + 1, vec![x]));
    // left identity
    assert_eq!(W::return_m(4).chain_m(k).run(), k(4).run());
    // right identity
    let m = W::new((7, vec![1, 2]));
    assert_eq!(m.chain_m(W::return_m).run(), (7, vec![1, 2]));
    // associativity
    let k2 = |x: u8| Writer::<Vec<u8>, u8>::new((x * 2, vec![x, x]));
    let lhs = W::new((1, vec![0])).chain_m(k).chain_m(k2).run();
    let rhs = W::new((1, vec![0])).chain_m(|x: u8| k(x).chain_m(k2)).run();
    assert_eq!(lhs, rhs);
    assert_eq!(lhs, (4, vec![0, 1, 2, 2]));
}

#[test]
fn law_state_associativity() {
    type S = StateT<u32, (), ()>;
    let k1 = |a: u32| S::new(move |s: u32| (a + s, s + 1));
    let k2 = |b: u32| S::new(move |s: u32| (b * s, s * 2));
    let lhs = S::new(|s: u32| (s, s + 10)).chain_m(k1).chain_m(k2).run(1);
    let rhs = S::new(|s: u32| (s, s + 10)).chain_m(|a: u32| k1(a).chain_m(k2)).run(1);
    assert_eq!(lhs, rhs);
    assert_eq!(lhs, (144, 24));
}

#[test]
fn law_reader_monad() {
    type R = ReaderT<u32, (), ()>;
    let k = |a: u32| R::new(move |e: u32| a + e);
    // left identity
    assert_eq!(R::return_m(3u32).chain_m(k).run(10), k(3).run(10));
    // right identity
    assert_eq!(R::new(|e: u32| e * 5).chain_m(|a: u32| R::return_m(a)).run(2), 10);
    // associativity
    let k2 = |b: u32| R::new(move |e: u32| b * e);
    let lhs = R::new(|e: u32| e + 1).chain_m(k).chain_m(k2).run(3);
    let rhs = R::new(|e: u32| e + 1).chain_m(|a: u32| k(a).chain_m(k2)).run(3);
    assert_eq!(lhs, rhs);
    assert_eq!(lhs, 21);
}

#[test]
fn law_vec_associativity() {
    let k1 = |x: u8| vec![x, x + 10];
    let k2 = |y: u8| vec![y, y];
    let lhs = vec![1u8, 2].chain_m(k1).chain_m(k2);
    let rhs = vec![1u8, 2].chain_m(|x: u8| k1(x).chain_m(k2));
    assert_eq!(lhs, rhs);
    assert_eq!(lhs, vec![1, 1, 11, 11, 2, 2, 12, 12]);
}

#[test]
fn law_mconcat_unit_and_flatten() {
    // unit: mconcat([x]) == x
    assert_eq!(Sum::mconcat(vec![Sum(5u32)]), Sum(5));
    // multiplication: mconcat(join(xss)) == mconcat(map(mconcat, xss))
    let xss = vec![vec![Sum(1u32), Sum(2)], vec![], vec![Sum(3)]];
    let joined: Vec<Sum<u32>> = xss.clone().into_iter().flatten().collect();
    let inner: Vec<Sum<u32>> = xss.into_iter().map(Sum::mconcat).collect();
    assert_eq!(Sum::mconcat(joined), Sum::mconcat(inner));
}

#[test]
fn law_endo_monoid() {
    let f = |x: u32| x + 1;
    let g = |x: u32| x * 2;
    let h = |x: u32| x + 10;
    // assoc_s applies self, then the argument
    assert_eq!((Endo::new(f).assoc_s(Endo::new(g)).app())(3), 8);
    // identities
    assert_eq!((endo::mempty().assoc_s(Endo::new(f)).app())(3), f(3));
    assert_eq!((Endo::new(f).assoc_s(endo::mempty()).app())(3), f(3));
    // associativity
    let l = Endo::new(f).assoc_s(Endo::new(g)).assoc_s(Endo::new(h)).app();
    let r = Endo::new(f).assoc_s(Endo::new(g).assoc_s(Endo::new(h))).app();
    assert_eq!(l(5), r(5));
    assert_eq!(l(5), 22);
}

#[test]
fn law_btree_functor() {
    let m: BTreeMap<u8, u32> = BTreeMap::from([(1, 10), (2, 20)]);
    assert_eq!(m.clone().fmap(|v: u32| v), m);
    assert_eq!(
        m.clone().fmap(|v: u32| v + 1).fmap(|v: u32| v * 2),
        m.clone().fmap(|v: u32| (v + 1) * 2)
    );
    let s: BTreeSet<u8> = BTreeSet::from([3, 1]);
    assert_eq!(s.clone().fmap(|x: u8| x), s);
}

#[test]
fn traverse_pure_laws() {
    let xs = vec![1u8, 2, 3];
    let r: Option<Vec<u8>> = xs.clone().traverse_t(|a: u8| Some(a));
    assert_eq!(r, Some(xs));
    let empty: Vec<u8> = vec![];
    let r: Option<Vec<u8>> = empty.traverse_t(|a: u8| Some(a));
    assert_eq!(r, Some(vec![]));
    let r: Identity<Maybe<u8>> = Maybe::Just(4u8).traverse_t(|a: u8| Identity(a));
    assert_eq!(r, Identity(Maybe::Just(4)));
    let r: Identity<Maybe<u8>> = Maybe::Nothing.traverse_t(|a: u8| Identity(a));
    assert_eq!(r, Identity(Maybe::Nothing));
}

#[test]
fn vec_deque_traversals() {
    let q: VecDeque<u8> = VecDeque::from(vec![1, 2, 3, 4]);
    let r: Option<VecDeque<u8>> = q.clone().traverse_t(|a: u8| Some(a));
    assert_eq!(r, Some(q.clone()));
    let r: Option<VecDeque<u8>> = q.traverse_t(|a: u8| if a % 2 == 1 { Some(a) } else { None });
    assert_eq!(r, None);
    let s: VecDeque<Option<u8>> = VecDeque::from(vec![Some(1), Some(2)]);
    assert_eq!(s.sequence_a(), Some(VecDeque::from(vec![1, 2])));
    let s: VecDeque<Option<u8>> = VecDeque::from(vec![Some(1), None]);
    assert_eq!(s.sequence_a(), None);
}

#[test]
fn pair_and_rose_tree_sequences() {
    assert_eq!(("l", Some(5)).sequence_a(), Some(("l", 5)));
    assert_eq!(("l", None::<i32>).sequence_a(), None);
    assert_eq!(glasgae::base::data::traversable::sequence_a_default(("l", Some(5))), Some(("l", 5)));
    assert_eq!(glasgae::base::data::traversable::sequence_a_default(("l", None::<i32>)), None);
    let t = RoseTree(Some(1), vec![RoseTree(Some(2), vec![])]);
    assert_eq!(t.sequence_a(), Some(RoseTree(1, vec![RoseTree(2, vec![])])));
    let t = RoseTree(Some(1), vec![RoseTree(None, vec![])]);
    assert_eq!(t.sequence_a(), None);
    let r: Option<(char, u8)> = ('c', 3u8).traverse_t(|x: u8| Some(x + 1));
    assert_eq!(r, Some(('c', 4)));
}

#[test]
fn traverse_default_laws() {
    let r: Option<Vec<u8>> = glasgae::base::data::traversable::traverse_t_default(vec![1u8, 2, 3, 4], |x: u8| Some(x));
    assert_eq!(r, Some(vec![1, 2, 3, 4]));
    let r: Option<Vec<u8>> =
        glasgae::base::data::traversable::traverse_t_default(vec![1u8, 2, 3, 4], |x: u8| if x % 2 == 1 { Some(x) } else { None });
    assert_eq!(r, None);
}
