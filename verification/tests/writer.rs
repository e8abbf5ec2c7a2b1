use glasgae::base::data::functor::Functor;
use glasgae::base::data::identity::Identity;
use glasgae::base::data::monoid::Sum;
use glasgae::mtl::writer::{Censor, Listens, MonadListen, MonadPass, MonadTell, MonadWriter};
use glasgae::transformers::class::MonadTrans;
use glasgae::transformers::reader::ReaderT;
use glasgae::transformers::state::StateT;
use glasgae::transformers::writer::{Writer, WriterT};

type W<A> = Writer<Sum<usize>, A>;

fn acc1_w(input: String) -> (String, Sum<usize>) {
    if input.len() % 2 == 0 {
        acc2_w(input).run()
    } else {
        acc3_w(input[1..].to_string())
            .chain_m(move |str1: String| {
                acc4_w(input[..1].to_string()).chain_m(move |str2: String| W::<String>::return_m(str1.clone() + &str2))
            })
            .run()
    }
}

fn acc2_w(input: String) -> W<String> {
    if input.len() > 10 {
        W::<()>::tell(Sum(1)).then_m(acc4_w(input[..9].to_string()))
    } else {
        W::<()>::tell(Sum(10)).then_m(W::<String>::return_m(input))
    }
}

fn acc3_w(input: String) -> W<String> {
    if input.len() % 3 == 0 {
        W::<()>::tell(Sum(3)).then_m(acc2_w(input + "ab"))
    } else {
        W::<()>::tell(Sum(1)).then_m(W::<String>::return_m(input[1..].to_string()))
    }
}

fn acc4_w(input: String) -> W<String> {
    if input.len() < 10 {
        W::<()>::tell(Sum(input.len())).then_m(W::<String>::return_m(format!("{input}{input}")))
    } else {
        W::<()>::tell(Sum(5)).then_m(W::<String>::return_m(input[..5].to_string()))
    }
}

#[test]
fn test_acc_writer() {
    let out = acc1_w("Hello one two three".to_string());
    println!("{out:#?}");
    assert_eq!(out, ("ello one ello one HH".to_string(), Sum(14)));
}

#[test]
fn writer_listen_pass_censor() {
    let w = W::<u8>::new((1, Sum(4)));
    assert_eq!(w.listen().run(), ((1, Sum(4)), Sum(4)));
    let w = W::<u8>::new((1, Sum(4)));
    assert_eq!(w.listens(|s: Sum<usize>| s.0 * 2).run(), ((1, 8), Sum(4)));
    let w = W::<u8>::new((2, Sum(3)));
    assert_eq!(w.censor(|s: Sum<usize>| Sum(s.0 + 1)).run(), (2, Sum(4)));
    let p: Writer<Sum<usize>, (u8, fn(Sum<usize>) -> u64)> = WriterT::new(((9, (|s: Sum<usize>| s.0 as u64 + 1) as fn(Sum<usize>) -> u64), Sum(6)));
    let r: Writer<u64, u8> = Writer::pass(p);
    assert_eq!(r.run(), (9, 7));
    assert_eq!(W::<u8>::new((1, Sum(4))).exec(), Sum(4));
    assert_eq!(W::<u8>::new((1, Sum(4))).exec_t(), Identity(Sum(4)));
}

#[test]
fn writer_classes() {
    let w: W<u8> = MonadWriter::writer(3, Sum(2));
    assert_eq!(w.run(), (3, Sum(2)));
    let t: W<()> = MonadTell::tell(Sum(5));
    assert_eq!(t.run(), ((), Sum(5)));
    let l: Writer<Sum<usize>, (u8, Sum<usize>)> = MonadListen::listen(W::<u8>::new((1, Sum(2))));
    assert_eq!(l.run(), ((1, Sum(2)), Sum(2)));
    let c = Censor::censor(W::<u8>::new((1, Sum(2))), |s: Sum<usize>| Sum(s.0 * 10));
    assert_eq!(c.run(), (1, Sum(20)));
    let ls: Writer<Sum<usize>, (u8, bool)> = Listens::listens(W::<u8>::new((1, Sum(2))), |s: Sum<usize>| s.0 > 1);
    assert_eq!(ls.run(), ((1, true), Sum(2)));
    let p: Writer<Sum<usize>, (u8, fn(Sum<usize>) -> u64)> = WriterT::new(((9, (|s: Sum<usize>| s.0 as u64) as fn(Sum<usize>) -> u64), Sum(6)));
    let r: Writer<u64, u8> = MonadPass::pass(p);
    assert_eq!(r.run(), (9, 6));
}

#[test]
fn writer_monad_ops() {
    let w = W::<u8>::new((2, Sum(3)));
    assert_eq!(w.chain_m(|a: u8| W::<u16>::new((a as u16 * 10, Sum(4)))).run(), (20, Sum(7)));
    let f = W::<fn(u8) -> u8>::new(((|a: u8| a + 1) as fn(u8) -> u8, Sum(1)));
    assert_eq!(f.app_a(W::<u8>::new((4, Sum(2)))).run(), (5, Sum(3)));
    let l: W<u8> = MonadTrans::lift(Identity(8u8));
    assert_eq!(l.run(), (8, Sum(0)));
    let m = W::<u8>::new((2, Sum(3))).map(|(a, w): (u8, Sum<usize>)| (a as u32, w.0 as u8));
    assert_eq!(m.run(), (2u32, 3u8));
}

#[test]
fn writer_over_reader() {
    let a = WriterT::<Vec<u8>, ()>::ask::<u8>();
    assert_eq!(a.0.run(7), (7, Vec::<u8>::new()));
    let r = WriterT::<Vec<u8>, ()>::reader(|e: u8| e * 3);
    assert_eq!(r.0.run(5), (15, Vec::<u8>::new()));
    let l = WriterT::<Vec<u8>, ()>::reader(|e: u8| e + 1).local(|e: u8| e * 10);
    assert_eq!(l.0.run(4), (41, Vec::<u8>::new()));
    assert_eq!(ReaderT::<u8, (), ()>::reader(|e: u8| e * 2).run(21), 42);
}

#[test]
fn writer_over_state() {
    let g = WriterT::<Vec<u8>, ()>::get::<u8>();
    assert_eq!(g.0.run(3), ((3, Vec::<u8>::new()), 3));
    let p = WriterT::<Vec<u8>, ()>::put(9u8);
    assert_eq!(p.0.run(3), (((), Vec::<u8>::new()), 9));
    let s = WriterT::<Vec<u8>, ()>::state(|n: u8| (n + 1, n * 2));
    assert_eq!(s.0.run(6), ((7, Vec::<u8>::new()), 12));
    assert_eq!(StateT::<u8, (), ()>::state(|n: u8| (n, n + 1)).run(1), (1, 2));
}

#[test]
fn writer_over_other_monads() {
    let w: WriterT<Vec<u8>, Vec<(char, Vec<u8>)>> = WriterT::new_t(vec![('a', vec![1]), ('b', vec![2, 3])]);
    assert_eq!(w.exec_t(), vec![vec![1], vec![2, 3]]);
    let w: WriterT<Vec<u8>, Option<(char, Vec<u8>)>> = WriterT::new_t(Some(('a', vec![1])));
    assert_eq!(w.listen().0, Some((('a', vec![1]), vec![1])));
    let w: WriterT<Vec<u8>, Vec<(char, Vec<u8>)>> = WriterT::new_t(vec![('a', vec![1, 2])]);
    assert_eq!(w.listens(|v: Vec<u8>| v.len()).0, vec![(('a', 2), vec![1, 2])]);
    let w: WriterT<Vec<u8>, Option<(char, Vec<u8>)>> = WriterT::new_t(Some(('a', vec![1])));
    assert_eq!(w.censor(|mut v: Vec<u8>| { v.push(9); v }).0, Some(('a', vec![1, 9])));
    let p: WriterT<Vec<u8>, Option<((char, fn(Vec<u8>) -> usize), Vec<u8>)>> =
        WriterT::new_t(Some((('a', (|v: Vec<u8>| v.len()) as fn(Vec<u8>) -> usize), vec![4, 5])));
    let r: WriterT<usize, Option<(char, usize)>> = p.pass();
    assert_eq!(r.0, Some(('a', 2)));
}

#[test]
fn writer_stack_over_option_and_vec() {
    let w: WriterT<Vec<u8>, Option<(char, Vec<u8>)>> = WriterT::new_t(Some(('a', vec![1])));
    let r: WriterT<Vec<u8>, Option<(u8, Vec<u8>)>> = w.chain_m(|c: char| WriterT::new_t(Some((c as u8, vec![2]))));
    assert_eq!(r.0, Some((97, vec![1, 2])));
    let none: WriterT<Vec<u8>, Option<(char, Vec<u8>)>> = WriterT::new_t(None);
    let r: WriterT<Vec<u8>, Option<(u8, Vec<u8>)>> = none.chain_m(|c: char| WriterT::new_t(Some((c as u8, vec![2]))));
    assert_eq!(r.0, None);
    let many: WriterT<Vec<u8>, Vec<(u8, Vec<u8>)>> = WriterT::new_t(vec![(1, vec![1]), (2, vec![2])]);
    let r: WriterT<Vec<u8>, Vec<(u8, Vec<u8>)>> = many.chain_m(|x: u8| WriterT::new_t(vec![(x, vec![0]), (x * 10, vec![9])]));
    assert_eq!(r.0, vec![(1, vec![1, 0]), (10, vec![1, 9]), (2, vec![2, 0]), (20, vec![2, 9])]);
}

#[test]
fn writer_fmap_over_vec() {
    let many: WriterT<Vec<u8>, Vec<(u8, Vec<u8>)>> = WriterT::new_t(vec![(1, vec![1]), (2, vec![2])]);
    let r: WriterT<Vec<u8>, Vec<(u8, Vec<u8>)>> = many.fmap(|x: u8| x + 5);
    assert_eq!(r.0, vec![(6, vec![1]), (7, vec![2])]);
}

#[test]
fn tell_then_tell() {
    let r = Writer::<Vec<u8>, ()>::tell(vec![1]).then_m(Writer::<Vec<u8>, ()>::tell(vec![2]));
    assert_eq!(r.run(), ((), vec![1, 2]));
}
