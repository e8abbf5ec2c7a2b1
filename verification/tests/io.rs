use glasgae::logger::Action;
use glasgae::transformers::state::StateT;
use glasgae::base::data::either::Either;
use glasgae::transformers::except::ExceptT;
use glasgae::transformers::identity::IdentityT;
use glasgae::transformers::reader::ReaderT;
use glasgae::transformers::writer::WriterT;
use glasgae::base::grl::io::{self, IO};
use glasgae::base::grl::lazy::{self, Lazy};

fn one() -> Vec<u8> {
    vec![1]
}

fn two_three() -> Vec<u8> {
    vec![2, 3]
}

#[test]
fn io_actions() {
    assert_eq!(IO::new(|| 2u8).fmap(|x: u8| x + 1).run(), 3);
    assert_eq!(IO::new(|| 2u8).chain_m(|x: u8| IO::new(move || x * 10)).run(), 20);
    assert_eq!(IO::new(|| 2u8).then_m(IO::new(|| 'b')).run(), 'b');
    assert_eq!(io::pure_a(5u8).run(), 5);
    assert_eq!(io::assoc_s(IO::new(one), IO::new(two_three)).run(), vec![1, 2, 3]);
    assert_eq!(io::mempty::<Vec<u8>>().run(), Vec::<u8>::new());
    assert_eq!(IO::new(|| |x: u8| x * 2).app_a(IO::new(|| 4u8)).run(), 8);
    let ios: Vec<IO<fn() -> Vec<u8>>> = vec![IO::new(one), IO::new(two_three), IO::new(one)];
    assert_eq!(io::mconcat(ios).run(), vec![1, 2, 3, 1]);
    let none: Vec<IO<fn() -> Vec<u8>>> = vec![];
    assert_eq!(io::mconcat(none).run(), Vec::<u8>::new());
}

#[test]
fn lazy_values() {
    assert_eq!(Lazy::new(|| 2u8).fmap(|x: u8| x + 1).run(), 3);
    assert_eq!(Lazy::new(|| 2u8).chain_m(|x: u8| Lazy::new(move || x * 10)).run(), 20);
    assert_eq!(lazy::pure_a(5u8).run(), 5);
    assert_eq!(lazy::assoc_s(Lazy::new(one), Lazy::new(two_three)).run(), vec![1, 2, 3]);
    assert_eq!(lazy::mempty::<String>().run(), "");
    assert_eq!(Lazy::new(|| |x: u8| x + 7).app_a(Lazy::new(|| 4u8)).run(), 11);
    let ls: Vec<Lazy<fn() -> Vec<u8>>> = vec![Lazy::new(two_three), Lazy::new(one)];
    assert_eq!(lazy::mconcat(ls).run(), vec![2, 3, 1]);
}

#[test]
fn transformers_lift_io() {

    let e = ExceptT::<IO<()>>::lift_io::<String, u8, _>(IO::new(|| 4u8));
    assert_eq!(e.run_t().run(), Either::Right(4));
    let w = WriterT::<Vec<u8>, IO<()>>::lift_io(IO::new(|| 'w'));
    assert_eq!(w.run_t().run(), ('w', Vec::<u8>::new()));
    let i = IdentityT::lift_io(IO::new(|| 9u8));
    assert_eq!(i.run().run(), 9);
    let r = ReaderT::<u8, (), ()>::lift_io(IO::new(nine as fn() -> u8));
    assert_eq!(r.run_t(1).run(), 9);
    assert_eq!(r.run_t(200).run(), 9);
    let st = StateT::<u8, (), ()>::lift_io(IO::new(nine as fn() -> u8));
    assert_eq!(st.run_t(4).perform(), (9, 4));
    assert_eq!(st.run_t(5).perform(), (9, 5));
}

fn nine() -> u8 {
    9
}
