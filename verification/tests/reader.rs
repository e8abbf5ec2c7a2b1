use glasgae::base::data::identity::Identity;
use glasgae::transformers::reader::{Reader, ReaderT};

type Email = String;
type Html = String;

type R = ReaderT<Email, (), ()>;

fn div(children: Vec<Html>) -> Html {
    format!("<div>{}</div>", children.concat())
}

fn h1(children: Vec<Html>) -> Html {
    format!("<h1>{}</h1>", children.concat())
}

fn p(children: Vec<Html>) -> Html {
    format!("<p>{}</p>", children.concat())
}

fn view(email: Email) -> Html {
    div(vec![page(email)])
}

fn page(email: Email) -> Html {
    div(vec![top_nav(), content(email)])
}

fn top_nav() -> Html {
    div(vec![h1(vec![format!("OurSite.com")])])
}

fn content(email: Email) -> Html {
    div(vec![h1(vec![
        format!("Custom Content for {email}"),
        left(),
        right(email),
    ])])
}

fn left() -> Html {
    div(vec![p(vec![format!("this is the left side")])])
}

fn right(email: Email) -> Html {
    div(vec![article(email)])
}

fn article(email: Email) -> Html {
    div(vec![p(vec![format!("this is an article"), widget(email)])])
}

fn widget(email: Email) -> Html {
    div(vec![p(vec![format!(
        "Hey {email}, we've got a great offer for you!"
    )])])
}

#[test]
fn test_html() {
    let email = "test@foobar.com";
    let out = view(email.to_string());
    println!("{out}");
    assert!(out.contains("Hey test@foobar.com, we've got a great offer for you!"));
}

fn view_r() -> Reader<Email, Html, impl Fn(Email) -> Identity<Html>> {
    page_r().chain_m(|page_| R::return_m(div(vec![page_])))
}

fn page_r() -> Reader<Email, Html, impl Fn(Email) -> Identity<Html>> {
    content_r().chain_m(|content_| R::return_m(div(vec![top_nav(), content_])))
}

fn content_r() -> Reader<Email, Html, impl Fn(Email) -> Identity<Html>> {
    R::ask().chain_m(|email: Email| {
        right_r().chain_m(move |right_| {
            R::return_m(div(vec![h1(vec![
                format!("Custom content for {email}"),
                left(),
                right_,
            ])]))
        })
    })
}

fn right_r() -> Reader<Email, Html, impl Fn(Email) -> Identity<Html>> {
    article_r().chain_m(|article_| R::return_m(div(vec![article_])))
}

fn article_r() -> Reader<Email, Html, impl Fn(Email) -> Identity<Html>> {
    widget_r().chain_m(|widget_| {
        R::return_m(div(vec![p(vec![format!("this is an article")]), widget_]))
    })
}

fn widget_r() -> Reader<Email, Html, impl Fn(Email) -> Identity<Html>> {
    R::ask().chain_m(|email: Email| {
        R::return_m(div(vec![p(vec![format!(
            "Hey {email}, we've got a great offer for you!"
        )])]))
    })
}

#[test]
fn test_html_reader() {
    let email = "test@foobar.com";
    let out = view_r().run(email.to_string());
    println!("{out:#?}");
    let expected = div(vec![div(vec![
        top_nav(),
        div(vec![h1(vec![
            format!("Custom content for {email}"),
            left(),
            div(vec![div(vec![p(vec![format!("this is an article")]), widget(email.to_string())])]),
        ])]),
    ])]);
    assert_eq!(out, expected);
}

#[test]
fn reader_asks_local_map() {
    let r = ReaderT::<u32, (), ()>::asks(|e: u32| e * 2).run(21);
    assert_eq!(r, 42);
    let r = ReaderT::<u32, (), ()>::ask().with(|e: u32| e + 1).run(1);
    assert_eq!(r, 2);
    let r = ReaderT::<u32, (), ()>::ask().map(|e: u32| e + 10).run(1);
    assert_eq!(r, 11);
    let r = ReaderT::<u32, (), ()>::ask().fmap(|e: u32| e * 3).run(2);
    assert_eq!(r, 6);
    let r = ReaderT::<u32, (), ()>::new(|e: u32| e + 7).local(|e: u32| e * 10).run_t(1);
    assert_eq!(r, Identity(17));
    let r = ReaderT::<u32, (), ()>::lift_t(Identity(5u8)).run_t(99);
    assert_eq!(r, Identity(5));
    let r = ReaderT::<u32, (), ()>::ask().map_t(|Identity(e): Identity<u32>| Identity(e + 1)).run_t(4);
    assert_eq!(r, Identity(5));
}

#[test]
fn reader_app_a_and_then() {
    let f = ReaderT::<u32, (), ()>::new(|e: u32| move |a: u32| a + e);
    let x = ReaderT::<u32, (), ()>::new(|e: u32| e * 10);
    assert_eq!(f.app_a(x).run(2), 22);
    let n = ReaderT::<u32, (), ()>::pure_a(1u8).then_m(ReaderT::<u32, (), ()>::ask());
    assert_eq!(n.run(8), 8);
}

#[test]
fn reader_lift() {
    let l = ReaderT::<u8, (), ()>::lift_t(Identity(3u8));
    assert_eq!(l.run(200), 3);
    let chained = ReaderT::<u8, (), ()>::lift_t(Identity(3u8))
        .chain_m(|a: u8| ReaderT::<u8, (), ()>::lift_t(Identity(a + 1)));
    assert_eq!(chained.run(9), 4);
    assert_eq!(l.run(1), ReaderT::<u8, (), ()>::return_m(3u8).run(1));
}

#[test]
fn reader_over_other_monads() {
    assert_eq!(ReaderT::<u8, Option<u8>, ()>::ask().run_t(5), Some(5));
    assert_eq!(ReaderT::<u8, Vec<u8>, ()>::asks(|r: u8| r * 2).run_t(4), vec![8]);
    assert_eq!(ReaderT::<u8, Identity<u8>, ()>::ask().run_t(6), Identity(6));
}

fn double(x: u8) -> u8 {
    x * 2
}

#[test]
fn reader_stack_over_option_and_vec() {
    let ask = ReaderT::<u8, Option<u8>, ()>::ask();
    let r = ask.chain_m(|e: u8| ReaderT::new_t(move |x: u8| if e > 3 { Some(x + e) } else { None }));
    assert_eq!(r.run_t(5), Some(10));
    assert_eq!(r.run_t(2), None);
    let many = ReaderT::new_t(|e: u8| vec![e, e + 1]);
    assert_eq!(many.fmap(|x: u8| x * 10).run_t(1), vec![10, 20]);
    let then = ReaderT::new_t(|e: u8| vec![e]).then_m(ReaderT::<u8, Vec<u8>, ()>::asks(|e: u8| e + 100));
    assert_eq!(then.run_t(1), vec![101]);
    let fs = ReaderT::new_t(|_e: u8| Some(double as fn(u8) -> u8));
    let xs = ReaderT::new_t(|e: u8| Some(e + 1));
    assert_eq!(fs.app_a(xs).run_t(3), Some(8));
}

#[test]
fn local_does_not_leak() {
    let m = ReaderT::<u8, (), ()>::ask().local(|e: u8| e + 10);
    assert_eq!(m.run(1), 11);
    let m = ReaderT::<u8, (), ()>::ask().local(|e: u8| e + 10);
    let r = m.chain_m(|_x: u8| ReaderT::<u8, (), ()>::ask());
    assert_eq!(r.run(1), 1);
}
