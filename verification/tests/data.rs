use std::collections::{BTreeMap, BTreeSet, VecDeque};

use glasgae::base::data::bifunctor::{Bifmap, Bifoldable};
use glasgae::base::data::either::Either;
use glasgae::base::data::foldable::{FoldMap, Foldable1};
use glasgae::base::data::functor::{AppA, ChainM, Foldable, Functor, PureA};
use glasgae::base::data::identity::Identity;
use glasgae::base::data::list::filter::Filter;
use glasgae::base::data::list::Append;
use glasgae::base::data::maybe::{maybe, Maybe};
use glasgae::base::data::monoid::{Monoid, Product, Sum};
use glasgae::base::data::semigroup::Semigroup;
use glasgae::base::data::list::sort::{Sort, SortBy};
use glasgae::base::data::traversable::{sequence_a_default, traverse_t_default, SequenceA, TraverseT};
use glasgae::base::data::tuple::pair::Pair;
use glasgae::base::data::tuple::{Cons, Snoc};
use glasgae::base::grl::bool::{And, Or};
use glasgae::base::grl::num::{Even, Odd, One, Zero};
use glasgae::base::grl::show::Show;

#[test]
fn monoid_sum_product() {
    assert_eq!(Sum(2u8).assoc_s(Sum(3u8)), Sum(5));
    assert_eq!(Product(4u32).assoc_s(Product(5u32)), Product(20));
    assert_eq!(Sum::<u64>::mempty(), Sum(0));
    assert_eq!(Product::<u64>::mempty(), Product(1));
    assert_eq!(Sum::mconcat(vec![Sum(1u16), Sum(2), Sum(3)]), Sum(6));
    assert_eq!(Product::mconcat(vec![Product(2u16), Product(3), Product(4)]), Product(24));
    // identity and associativity on concrete values
    assert_eq!(Sum(7u32).assoc_s(Sum::mempty()), Sum(7));
    assert_eq!(Sum::mempty().assoc_s(Sum(7u32)), Sum(7));
    assert_eq!(
        Sum(1u32).assoc_s(Sum(2).assoc_s(Sum(3))),
        Sum(1u32).assoc_s(Sum(2)).assoc_s(Sum(3))
    );
}

#[test]
fn monoid_vec_string_maybe() {
    assert_eq!(vec![1, 2].assoc_s(vec![3]), vec![1, 2, 3]);
    assert_eq!(Vec::<u8>::mconcat(vec![vec![1], vec![], vec![2, 3]]), vec![1, 2, 3]);
    assert_eq!(String::from("ab").assoc_s(String::from("cd")), "abcd");
    assert_eq!(String::mconcat(vec!["a".to_string(), "b".to_string()]), "ab");
    assert_eq!(Maybe::Just(Sum(1u8)).assoc_s(Maybe::Nothing), Maybe::Just(Sum(1)));
    assert_eq!(Maybe::Just(Sum(1u8)).assoc_s(Maybe::Just(Sum(2))), Maybe::Just(Sum(3)));
    assert_eq!(Maybe::<Sum<u8>>::mempty(), Maybe::Nothing);
    assert_eq!(Some(vec![1]).assoc_s(Some(vec![2])), Some(vec![1, 2]));
}

#[test]
fn maybe_functor_monad() {
    assert_eq!(Maybe::Just(2).fmap(|x: i32| x * 3), Maybe::Just(6));
    assert_eq!(Maybe::<i32>::Nothing.fmap(|x: i32| x * 3), Maybe::Nothing);
    assert_eq!(Maybe::Just(2).chain_m(|x: i32| if x > 1 { Maybe::Just(x) } else { Maybe::Nothing }), Maybe::Just(2));
    assert_eq!(Maybe::<u8>::pure_a(4), Maybe::Just(4));
    assert_eq!(AppA::<u8, u8>::app_a(Maybe::Just(|x: u8| x + 1), Maybe::Just(1)), Maybe::Just(2));
    assert_eq!(maybe(0, |x: u8| x + 1, Maybe::Just(4)), 5);
    assert_eq!(maybe(0, |x: u8| x + 1, Maybe::Nothing), 0);
    let o: Option<u8> = Maybe::Just(3).into();
    assert_eq!(o, Some(3));
    let m: Maybe<u8> = Some(3).into();
    assert_eq!(m, Maybe::Just(3));
    // functor identity
    assert_eq!(Maybe::Just(9).fmap(|x: u8| x), Maybe::Just(9));
    assert_eq!(Maybe::Just(1).foldr(|x: u8, acc: u8| x + acc, 10), 11);
    assert_eq!(Some(2).fmap(|x: u8| x + 1), Some(3));
    assert_eq!(Some(2).chain_m(|x: u8| Some(x * 2)), Some(4));
}

#[test]
fn either_identity() {
    assert_eq!(Either::<u8, u8>::Right(1).fmap(|x: u8| x + 1), Either::Right(2));
    assert_eq!(Either::<u8, u8>::Left(1).fmap(|x: u8| x + 1), Either::Left(1));
    assert_eq!(Either::<u8, u8>::Right(1).chain_m(|x: u8| Either::<u8, u8>::Left(x)), Either::Left(1));
    assert_eq!(Identity(3).fmap(|x: u8| x * 2), Identity(6));
    assert_eq!(Identity(3).chain_m(|x: u8| Identity(x + 1)), Identity(4));
    assert_eq!(Identity::new(5).run(), 5);
}

#[test]
fn vec_classes() {
    assert_eq!(vec![1, 2, 3].fmap(|x: u8| x * 2), vec![2, 4, 6]);
    assert_eq!(vec![1, 2].chain_m(|x: u8| vec![x, x]), vec![1, 1, 2, 2]);
    assert_eq!(vec![1, 2, 3].foldr(|x: u8, acc: Vec<u8>| { let mut a = acc; a.push(x); a }, vec![]), vec![3, 2, 1]);
    assert_eq!(vec![1, 2, 3].foldl(|acc: u32, x: u32| acc * 10 + x, 0), 123);
    let fs: Vec<fn(u8) -> u8> = vec![|x| x + 1, |x| x * 2];
    assert_eq!(AppA::<u8, u8>::app_a(fs, vec![10, 20, 30]), vec![11, 40]);
    assert_eq!(vec![1u8, 2, 3].fold_map(|x: u8| Sum(x as u32)), Sum(6));
    assert_eq!(vec![1u32, 2, 3].foldr1(|a: u32, b: u32| a * 10 + b), 123);
    assert_eq!(vec![1u32, 2, 3].foldl1(|a: u32, b: u32| a * 10 + b), 1 * 10 + (2 * 10 + 3));
    assert_eq!(vec![1, 2, 3, 4].filter(|x: u8| x % 2 == 0), vec![2, 4]);
    assert_eq!(Append::append(vec![1], vec![2]), vec![1, 2]);
    assert_eq!(Vec::<u8>::pure_a(7), vec![7]);
    assert_eq!(glasgae::base::data::list::vec::push(0, vec![1, 2]), vec![0, 1, 2]);
}

#[test]
fn traversals() {
    assert_eq!(vec![Some(1), Some(2)].sequence_a(), Some(vec![1, 2]));
    assert_eq!(vec![Some(1), None].sequence_a(), None::<Vec<u8>>);
    assert_eq!(vec![Maybe::Just(1), Maybe::Just(2)].sequence_a(), Maybe::Just(vec![1, 2]));
    assert_eq!(vec![1u8, 2].traverse_t(|x: u8| if x > 0 { Some(x * 2) } else { None }), Some(vec![2, 4]));
    assert_eq!(vec![1u8, 0].traverse_t(|x: u8| if x > 0 { Some(x * 2) } else { None }), None);
}

#[test]
fn tuples_and_pairs() {
    assert_eq!(1.cons(2), (1, 2));
    assert_eq!(1.snoc(2), (2, 1));
    let p: (u8, char) = Pair::pair(1, 'a');
    assert_eq!(p.fst(), 1);
    assert_eq!((1u8, 'b').snd(), 'b');
    assert_eq!((Sum(1u8), 2u8).fmap(|x: u8| x + 1), (Sum(1), 3));
}

#[test]
fn show_values() {
    assert_eq!(true.show(), "true");
    assert_eq!(false.show(), "false");
    assert_eq!(0u8.show(), "0");
    assert_eq!(1234u32.show(), "1234");
    assert_eq!((-45i64).show(), "-45");
    assert_eq!(i8::MIN.show(), "-128");
    assert_eq!(u128::MAX.show(), u128::MAX.to_string());
    assert_eq!('a'.show(), "a");
    assert_eq!("str".show(), "str");
    assert_eq!(vec![1u8, 2, 3].show(), "[1, 2, 3]");
    assert_eq!(Vec::<u8>::new().show(), "[]");
    assert_eq!((1u8, "x").show(), "(1, x)");
    assert_eq!(Box::new(7u16).show(), "7");
}

#[test]
fn numbers_and_bools() {
    assert_eq!(u8::zero(), 0);
    assert_eq!(i32::one(), 1);
    assert!(4u8.even());
    assert!(!4u8.odd());
    assert!(7i64.odd());
    assert!(Or::or(false, true));
    assert!(!And::or(true, false));
}

#[test]
fn btree_map_insert() {
    let m = glasgae::base::data::map::btree_map::insert(1, "a", BTreeMap::new());
    let m = glasgae::base::data::map::btree_map::insert(1, "b", m);
    assert_eq!(m.len(), 1);
    assert_eq!(m.get(&1), Some(&"b"));
}

#[test]
fn sorting() {
    assert_eq!(Sort::sort(vec![3, 1, 2]), vec![1, 2, 3]);
    assert_eq!(SortBy::sort_by(vec![3, 1, 2], |a: i32, b: i32| b.cmp(&a)), vec![3, 2, 1]);
}

#[test]
fn traverse_maybe_option() {
    let r: Vec<Maybe<u8>> = TraverseT::traverse_t(Maybe::Just(2u8), |x: u8| vec![x, x + 1]);
    assert_eq!(r, vec![Maybe::Just(2), Maybe::Just(3)]);
    let r: Vec<Maybe<u8>> = TraverseT::traverse_t(Maybe::<u8>::Nothing, |x: u8| vec![x]);
    assert_eq!(r, vec![Maybe::Nothing]);
    let r: Option<Maybe<u8>> = SequenceA::sequence_a(Maybe::Just(Some(1u8)));
    assert_eq!(r, Some(Maybe::Just(1)));
    let r: Vec<Option<u8>> = SequenceA::sequence_a(Some(vec![1u8, 2]));
    assert_eq!(r, vec![Some(1), Some(2)]);
    let r: Identity<Option<u8>> = TraverseT::traverse_t(Some(4u8), |x: u8| Identity(x * 2));
    assert_eq!(r, Identity(Some(8)));
    let r: Option<Vec<u8>> = traverse_t_default(vec![1u8, 2], |x: u8| Some(x));
    assert_eq!(r, Some(vec![1, 2]));
    let r: Option<Vec<u8>> = sequence_a_default(vec![Some(1u8), Some(2)]);
    assert_eq!(r, Some(vec![1, 2]));
}

#[test]
fn vec_deque_classes() {
    let d: VecDeque<u8> = VecDeque::from(vec![1, 2, 3]);
    assert_eq!(d.clone().fmap(|x: u8| x + 1), VecDeque::from(vec![2, 3, 4]));
    assert_eq!(d.clone().chain_m(|x: u8| VecDeque::from(vec![x, x])), VecDeque::from(vec![1, 1, 2, 2, 3, 3]));
    assert_eq!(d.clone().foldl(|acc: u32, x: u8| acc * 10 + x as u32, 0), 123);
    assert_eq!(d.clone().assoc_s(VecDeque::from(vec![4])), VecDeque::from(vec![1, 2, 3, 4]));
    assert_eq!(VecDeque::<u8>::mconcat(vec![VecDeque::from(vec![1]), VecDeque::from(vec![2, 3])]), VecDeque::from(vec![1, 2, 3]));
    assert_eq!(glasgae::base::data::list::vec_deque::to_vec(d.clone()), vec![1, 2, 3]);
    assert_eq!(glasgae::base::data::list::linked_list::push_front(0, d), VecDeque::from(vec![0, 1, 2, 3]));
}

#[test]
fn larger_tuples() {
    assert_eq!((1u8, 'a', 3u16).fmap(|x: u16| x * 2), (1, 'a', 6));
    assert_eq!((1u8, 2u8, 3u8, 4u8, 5u8).fmap(|x: u8| x + 1), (1, 2, 3, 4, 6));
}

#[test]
fn array_classes() {
    let a: [u8; 3] = [1, 2, 3];
    assert_eq!(a.fmap(|x: u8| x * 2), [2, 4, 6]);
    let fs: [fn(u8) -> u8; 2] = [|x| x + 1, |x| x * 2];
    assert_eq!(AppA::<u8, u8>::app_a(fs, [10, 20]), [11, 40]);
    assert_eq!(<[u8; 1] as PureA>::pure_a(7), [7]);
    assert_eq!(a.foldr(|x: u8, acc: u32| acc * 10 + x as u32, 0), 321);
    assert_eq!(a.foldl(|acc: u32, x: u8| acc * 10 + x as u32, 0), 123);
    let empty: [u8; 0] = [];
    assert_eq!(empty.fmap(|x: u8| x + 1), []);
}

#[test]
fn btree_map_classes() {
    let m: BTreeMap<u8, u32> = BTreeMap::from([(3, 30), (1, 10), (2, 20)]);
    assert_eq!(m.clone().fmap(|v: u32| v + 1), BTreeMap::from([(1, 11), (2, 21), (3, 31)]));
    let listed = m.clone().foldr(
        |v: u32, acc: Vec<u32>| {
            let mut a = vec![v];
            a.extend(acc);
            a
        },
        vec![],
    );
    assert_eq!(listed, vec![10, 20, 30]);
    assert_eq!(m.clone().foldl(|acc: u64, v: u32| acc * 100 + v as u64, 0), 102030);
    // combined from the greatest key down
    assert_eq!(m.clone().fold_map(|v: u32| vec![v]), vec![30, 20, 10]);
    assert_eq!(m.clone().fold_map(|v: u32| Sum(v)), Sum(60));
    // keys that meet: the value of the greater original key stays
    assert_eq!(m.clone().bifmap(|k: u8| k % 2), BTreeMap::from([(0, 20), (1, 30)]));
    let a = BTreeMap::from([(1u8, 'a'), (2, 'b')]);
    let b = BTreeMap::from([(2u8, 'x'), (3, 'y')]);
    let both = BTreeMap::from([(1u8, 'a'), (2, 'x'), (3, 'y')]);
    assert_eq!(a.clone().assoc_s(b.clone()), both);
    assert_eq!(BTreeMap::<u8, char>::mconcat(vec![a.clone(), b]), both);
    assert_eq!(BTreeMap::<u8, char>::mempty().assoc_s(a.clone()), a);
    let m2: BTreeMap<u8, u32> = BTreeMap::from([(2, 20), (1, 10)]);
    let r = m2.clone().bifoldr(
        |k: u8, acc: Vec<u32>| [vec![k as u32], acc].concat(),
        |v: u32, acc: Vec<u32>| [vec![v], acc].concat(),
        vec![],
    );
    assert_eq!(r, vec![10, 1, 20, 2]);
    let l = m2.bifoldl(
        |acc: Vec<u32>, k: u8| [acc, vec![k as u32]].concat(),
        |acc: Vec<u32>, v: u32| [acc, vec![v]].concat(),
        vec![],
    );
    assert_eq!(l, vec![1, 10, 2, 20]);
    let empty: BTreeMap<u8, u32> = BTreeMap::new();
    assert_eq!(empty.clone().foldl(|acc: u32, v: u32| acc + v, 7), 7);
    assert_eq!(empty.fmap(|v: u32| v), BTreeMap::new());
}

#[test]
fn btree_set_classes() {
    let s: BTreeSet<u8> = BTreeSet::from([3, 1, 2]);
    assert_eq!(s.clone().fmap(|x: u8| x / 2), BTreeSet::from([0, 1]));
    assert_eq!(<BTreeSet<u8> as PureA>::pure_a(5), BTreeSet::from([5]));
    assert_eq!(
        s.clone().chain_m(|x: u8| BTreeSet::from([x, x + 10])),
        BTreeSet::from([1, 2, 3, 11, 12, 13])
    );
    let listed = s.clone().foldr(
        |x: u8, acc: Vec<u8>| {
            let mut a = vec![x];
            a.extend(acc);
            a
        },
        vec![],
    );
    assert_eq!(listed, vec![1, 2, 3]);
    assert_eq!(s.clone().foldl(|acc: u32, x: u8| acc * 10 + x as u32, 0), 123);
    let t = BTreeSet::from([2u8, 9]);
    assert_eq!(s.clone().assoc_s(t.clone()), BTreeSet::from([1, 2, 3, 9]));
    assert_eq!(BTreeSet::<u8>::mconcat(vec![s.clone(), t, BTreeSet::from([0])]), BTreeSet::from([0, 1, 2, 3, 9]));
    assert_eq!(BTreeSet::<u8>::mempty(), BTreeSet::new());
    assert_eq!(glasgae::base::data::set::btree_set::to_vec(s.clone()), vec![1, 2, 3]);
    assert_eq!(glasgae::base::data::set::btree_set::from_vec(vec![2u8, 1, 2]), BTreeSet::from([1, 2]));
}

#[test]
fn btree_set_traversals() {
    let s: BTreeSet<Option<u8>> = BTreeSet::from([Some(3), Some(1)]);
    assert_eq!(SequenceA::sequence_a(s), Some(vec![1, 3]));
    let s: BTreeSet<Option<u8>> = BTreeSet::from([Some(3), None]);
    assert_eq!(SequenceA::<Option<Vec<u8>>>::sequence_a(s), None);
    let t: BTreeSet<u8> = BTreeSet::from([4, 2]);
    let r: Option<Vec<u8>> = TraverseT::traverse_t(t.clone(), |x: u8| Some(x / 2));
    assert_eq!(r, Some(vec![1, 2]));
    let r: Option<Vec<u8>> = TraverseT::traverse_t(t, |x: u8| if x > 3 { None } else { Some(x) });
    assert_eq!(r, None);
    let fs: BTreeSet<fn(u8) -> u8> = BTreeSet::from([(|x| x + 1) as fn(u8) -> u8]);
    let r: BTreeSet<u8> = AppA::<u8, u8>::app_a(fs, BTreeSet::from([5u8, 9]));
    assert_eq!(r, BTreeSet::from([6]));
}

#[test]
fn sum_product_classes() {
    assert_eq!(Sum(3u8).fmap(|x: u8| x + 1), Sum(4));
    assert_eq!(<Sum<u8> as PureA>::pure_a(2), Sum(2));
    assert_eq!(AppA::<u8, u16>::app_a(Sum(|x: u8| x as u16 * 100), Sum(3u8)), Sum(300u16));
    assert_eq!(Sum(3u8).chain_m(|x: u8| Sum(x * 2)), Sum(6));
    assert_eq!(Product(3u8).fmap(|x: u8| x + 1), Product(4));
    assert_eq!(<Product<u8> as PureA>::pure_a(2), Product(2));
    assert_eq!(AppA::<u8, u8>::app_a(Product(|x: u8| x + 1), Product(9u8)), Product(10));
    assert_eq!(Product(3u8).chain_m(|x: u8| Product(x * 2)), Product(6));
    assert_eq!(Sum(7u32).get(), 7);
    assert_eq!(Product(7u32).get(), 7);
}
