use glasgae::base::data::identity::Identity;
use glasgae::zipper_cont::{Direction, Direction1, ZipperTerm};

fn term_with(inner: &str) -> ZipperTerm {
    let x = ZipperTerm::var("x");
    let f = ZipperTerm::var("f");
    let innermost = || ZipperTerm::l_free("f").next(ZipperTerm::l_free(inner).next(if inner == "x" { x.clone() } else { ZipperTerm::var(inner) }));

    ZipperTerm::l_free("f").next(
        ZipperTerm::l_free("x").next(
            ZipperTerm::a_free()
                .left(
                    ZipperTerm::a_free().left(f.clone()).right(
                        ZipperTerm::l_free("f").next(
                            ZipperTerm::a_free().left(f.clone()).right(innermost()),
                        ),
                    ),
                )
                .right(
                    ZipperTerm::a_free()
                        .left(ZipperTerm::a_free().left(f.clone()).right(innermost()))
                        .right(x.clone()),
                ),
        ),
    )
}

fn term() -> ZipperTerm {
    let term = term_with("x");
    println!("Term:\n{term:#?}");
    term
}

#[test]
fn test_1() {
    let term = term()
        .travel(|_| Identity::return_m((None, Direction::Next)))
        .run();

    println!("Done:\n{term:#?}");
    assert_eq!(term, term_with("x"));
}

#[test]
fn test_2() {
    let term = term();

    let term = term
        .travel(|term| {
            println!("Term: {term:#?}");
            Identity::return_m((None, Direction::Next))
        })
        .run();

    println!("Done:\n{term:#?}");
    assert_eq!(term, term_with("x"));
}

#[test]
fn test_3() {
    let term = term();

    let term = term
        .travel(|term| {
            Identity::return_m(match term {
                ZipperTerm::A(ref l, _) if matches!(**l, ZipperTerm::Var(ref s) if s == "f") => {
                    println!("Cutting {term:#?}");
                    (None, Direction::Up)
                }
                term => {
                    println!("Term: {term:#?}");
                    (None, Direction::DownLeft)
                }
            })
        })
        .run();

    println!("Done:\n{term:#?}");
    assert_eq!(term, term_with("x"));
}

#[test]
fn test_4() {
    let term = term();

    let term = term.travel(|t| {
        Identity::return_m(match t {
            ZipperTerm::L(t, n) if t == "x" && matches!(&*n, ZipperTerm::Var(s) if s == "x") => {
                println!("Replacing...");
                (Some(ZipperTerm::l("y", ZipperTerm::var("y"))), Direction::Next)
            }
            t => {
                println!("Term: {t:#?}");
                (None, Direction::Next)
            }
        })
    });

    println!("Done:\n{term:#?}");
    assert_eq!(term, Identity(term_with("y")));
}

#[test]
fn zipper_term_folds_and_map() {
    let t = ZipperTerm::l("x", ZipperTerm::a(ZipperTerm::var("a"), ZipperTerm::var("b")));
    let names = t.clone().foldr(|n: String, acc: String| n + &acc, String::new());
    assert_eq!(names, "xab");
    let steps = t.clone().foldl(|acc: String, n: String| acc + &n, String::from(">"));
    assert_eq!(steps, "x>ab");
    let upper = t.fmap(|n: String| n.to_uppercase());
    assert_eq!(upper, ZipperTerm::l("X", ZipperTerm::a(ZipperTerm::var("A"), ZipperTerm::var("B"))));
}

#[test]
fn zipper_travel_down_right_and_up() {
    let t = ZipperTerm::a(ZipperTerm::var("a"), ZipperTerm::var("b"));
    let r = t.travel(|n| {
        Identity::return_m(match n {
            ZipperTerm::Var(ref s) if s == "b" => (Some(ZipperTerm::var("c")), Direction::Up),
            _ => (None, Direction::DownRight),
        })
    });
    assert_eq!(r, Identity(ZipperTerm::a(ZipperTerm::var("a"), ZipperTerm::var("c"))));
}

#[test]
fn zipper_travel_replaces_variable_with_abstraction() {
    let t = ZipperTerm::a(ZipperTerm::var("x"), ZipperTerm::var("z"));
    let r = t.travel(|n| {
        if n == ZipperTerm::var("x") {
            Identity((Some(ZipperTerm::l("y", ZipperTerm::var("y"))), Direction::Next))
        } else {
            Identity((None, Direction::Next))
        }
    });
    assert_eq!(r.0, ZipperTerm::a(ZipperTerm::l("y", ZipperTerm::var("y")), ZipperTerm::var("z")));
}

#[test]
fn zipper_travel1_rebuilds_and_revisits() {
    // Go into the argument of an application once, rename the variable there, and stop
    // when the rebuilt application is visited again.
    let t = ZipperTerm::a(ZipperTerm::var("f"), ZipperTerm::var("x"));
    let r = t.travel1(|n| {
        if n == ZipperTerm::a(ZipperTerm::var("f"), ZipperTerm::var("x")) {
            Identity((None, Direction1::RightKid))
        } else if n == ZipperTerm::var("x") {
            Identity((Some(ZipperTerm::var("y")), Direction1::Parent))
        } else {
            Identity((None, Direction1::Parent))
        }
    });
    assert_eq!(r.0, ZipperTerm::a(ZipperTerm::var("f"), ZipperTerm::var("y")));
    let body = ZipperTerm::l("x", ZipperTerm::var("x"));
    let r = body.travel1(|n| {
        if n == ZipperTerm::l("x", ZipperTerm::var("x")) {
            Identity((None, Direction1::FirstKid))
        } else if n == ZipperTerm::var("x") {
            Identity((Some(ZipperTerm::var("w")), Direction1::Parent))
        } else {
            Identity((None, Direction1::Parent))
        }
    });
    assert_eq!(r.0, ZipperTerm::l("x", ZipperTerm::var("w")));
}
