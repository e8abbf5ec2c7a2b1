use glasgae::base::grl::io::IO;
use glasgae::logger::indent::Indent;
use glasgae::base::grl::show::Show;
use glasgae::logger::level::{log_line, Level};
use glasgae::logger::state_logging::StateLogger;
use glasgae::logger::{indent_logger, Action, LoggingT, Pure};

fn print_logger(level: Level, message: &'static str) -> IO<impl FnOnce()> {
    IO::new(move || println!("{}", log_line(level, message)))
}

#[test]
fn test_monad_logger() {
    let action = LoggingT::<Level, &str, _, _, ()>::return_m(())
        .then_m(LoggingT::log(Level::Trace, "sssh"))
        .then_m(LoggingT::log(Level::Debug, "hey listen"))
        .then_m(LoggingT::log(Level::Info, "hey alright"))
        .then_m(LoggingT::log(Level::Warn, "uh oh"))
        .then_m(LoggingT::log(Level::Error, "OH NO"))
        .run_t(print_logger);
    action.perform();
}

#[test]
fn logger_ask_and_indent() {
    let logger = |level: u8, m: &'static str| IO::new(move || {
        let _ = (level, m);
    });
    let p = LoggingT::<u8, &str, _, _, ()>::ask().run_t(logger);
    let g = p.perform();
    let () = g(1, "x").run();

    let f = indent_logger(|level: u8, i: Indent<&str>| (level, i.0, i.1));
    assert_eq!(f(3, ("msg", 2)), (3, "msg", 2));
}

#[test]
fn logger_fmap_and_chain() {
    let logger = |_level: u8, _m: &'static str| IO::new(|| ());
    let c = LoggingT::<u8, &str, _, _, ()>::return_m(2u8).fmap(|x: u8| x + 1);
    assert_eq!(c.run_t(logger).perform(), 3);
    let c = LoggingT::<u8, &str, _, _, ()>::return_m(2u8)
        .chain_m(|x: u8| LoggingT::<u8, &str, _, _, ()>::return_m(x * 10));
    assert_eq!(c.run_t(logger).perform(), 20);
}

#[test]
fn log_lines_and_level_names() {
    assert_eq!(log_line(Level::Info, "hey alright"), "[INFO] hey alright");
    assert_eq!(log_line(Level::Error, "OH NO"), "[ERROR] OH NO");
    assert_eq!(log_line(Level::Warn, ""), "[WARN] ");
    assert_eq!(Level::Trace.name(), log::Level::Trace.to_string());
    assert_eq!(Level::Debug.name(), "DEBUG");
}

#[test]
fn indent_show() {
    assert_eq!(Indent::new("msg", 2).show(), "    msg");
    assert_eq!(Indent::new(7u8, 0).show(), "7");
}

#[test]
fn logging_at_levels() {
    let lines = std::cell::RefCell::new(Vec::<String>::new());
    let logger = |level: Level, m: &'static str| {
        let lines = &lines;
        IO::new(move || lines.borrow_mut().push(log_line(level, m)))
    };
    LoggingT::<Level, &str, _, _, ()>::trace("sssh").run_t(logger).perform();
    LoggingT::<Level, &str, _, _, ()>::debug("hey listen").run_t(logger).perform();
    LoggingT::<Level, &str, _, _, ()>::info("hey alright").run_t(logger).perform();
    LoggingT::<Level, &str, _, _, ()>::warn("uh oh").run_t(logger).perform();
    LoggingT::<Level, &str, _, _, ()>::error("OH NO").run_t(logger).perform();
    assert_eq!(
        lines.into_inner(),
        vec!["[TRACE] sssh", "[DEBUG] hey listen", "[INFO] hey alright", "[WARN] uh oh", "[ERROR] OH NO"]
    );
}

#[test]
fn logger_pure_lift_app() {
    let logger = |_l: u8, _m: &'static str| IO::new(|| ());
    assert_eq!(LoggingT::<u8, &str, _, _, ()>::pure_a(5u8).run_t(logger).perform(), 5);
    assert_eq!(LoggingT::<u8, &str, _, _, ()>::lift(Pure(6u8)).run_t(logger).perform(), 6);
    assert_eq!(LoggingT::<u8, &str, _, _, ()>::lift_io(IO::new(|| 7u8)).run_t(logger).perform(), 7);
    let f = LoggingT::<u8, &str, _, _, ()>::pure_a(|x: u8| x * 3);
    let a = LoggingT::<u8, &str, _, _, ()>::pure_a(4u8);
    assert_eq!(f.app_a(a).run_t(logger).perform(), 12);
}

#[test]
fn test_monad_logger_state() {
    let lines = std::cell::RefCell::new(Vec::<String>::new());
    let logger = |level: Level, md: (&'static str, usize)| {
        let lines = &lines;
        IO::new(move || lines.borrow_mut().push(log_line(level, &Indent::new(md.0, md.1).show())))
    };
    let init = IO::new(|| {
        let _ = env_logger::try_init();
    });
    let action = StateLogger::<Level, &'static str, usize, _, _, ()>::lift_io(init)
        .then_m(StateLogger::log(Level::Trace, "hmm..."))
        .then_m(StateLogger::log(Level::Debug, "hmm..?"))
        .then_m(StateLogger::indent())
        .then_m(StateLogger::log(Level::Info, "hmm?"))
        .then_m(StateLogger::log(Level::Warn, "ah!"))
        .then_m(StateLogger::unindent())
        .then_m(StateLogger::log(Level::Error, "aha!"))
        .run(logger);
    action.perform();
    assert_eq!(
        lines.into_inner(),
        vec!["[TRACE] hmm...", "[DEBUG] hmm..?", "[INFO]   hmm?", "[WARN]   ah!", "[ERROR] aha!"]
    );
}

#[test]
fn test_state_logging() {
    let lines = std::cell::RefCell::new(Vec::<String>::new());
    let logger = |level: Level, md: (&'static str, usize)| {
        let lines = &lines;
        IO::new(move || lines.borrow_mut().push(log_line(level, &Indent::new(md.0, md.1).show())))
    };
    let _ = env_logger::try_init();
    let action = StateLogger::<Level, &'static str, usize, _, _, ()>::info("Start")
        .then_m(StateLogger::indent())
        .then_m(StateLogger::info("Middle"))
        .then_m(StateLogger::unindent())
        .then_m(StateLogger::info("End"))
        .run(logger);
    action.perform();
    assert_eq!(lines.into_inner(), vec!["[INFO] Start", "[INFO]   Middle", "[INFO] End"]);
}

#[test]
fn state_logger_scope_and_values() {
    let lines = std::cell::RefCell::new(Vec::<String>::new());
    let logger = |level: Level, md: (&'static str, usize)| {
        let lines = &lines;
        IO::new(move || lines.borrow_mut().push(log_line(level, &Indent::new(md.0, md.1).show())))
    };
    let inner = StateLogger::<Level, &'static str, usize, _, _, ()>::info("inside")
        .then_m(StateLogger::return_m(7u8));
    let scoped = StateLogger::<Level, &'static str, usize, _, _, ()>::info("before")
        .then_m(inner.log_scope())
        .chain_m(|x: u8| StateLogger::return_m(x * 2))
        .fmap(|x: u8| x + 1);
    let (value, depth) = scoped.run_t(logger, 0).perform();
    assert_eq!((value, depth), (15, 0));
    assert_eq!(lines.into_inner(), vec!["[INFO] before", "[INFO]   inside"]);
    let f = StateLogger::<Level, &'static str, usize, _, _, ()>::pure_a(|x: u8| x + 100);
    let a = StateLogger::<Level, &'static str, usize, _, _, ()>::pure_a(5u8);
    let logger2 = |_l: Level, _m: (&'static str, usize)| IO::new(|| ());
    assert_eq!(f.app_a(a).run_t(logger2, 3).perform(), (105, 3));
    // indenting and then unindenting leaves the depth as it was
    let balanced = StateLogger::<Level, &'static str, usize, _, _, ()>::indent().then_m(StateLogger::unindent());
    assert_eq!(balanced.run_t(logger2, 5).perform(), ((), 5));
    let lifted = StateLogger::<Level, &'static str, usize, _, _, ()>::lift_t(Pure(9u8));
    assert_eq!(lifted.run_t(logger2, 2).perform(), (9, 2));
    let mapped = StateLogger::<Level, &'static str, usize, _, _, ()>::return_m(1u8).map_inner(|p: Pure<(u8, usize)>| Pure((p.0 .0 + 1, p.0 .1)));
    assert_eq!(mapped.run_t(logger2, 0).perform(), (2, 0));
    let whole = StateLogger::<Level, &'static str, usize, _, _, ()>::return_m(1u8).map_t(|c| c.fmap(|x: u8| x * 5));
    assert_eq!(whole.run_t(logger2, 1).perform(), (5, 1));
    let whole = StateLogger::<Level, &'static str, usize, _, _, ()>::return_m(2u8).map_state(|c| c.fmap(|x: u8| x * 5));
    assert_eq!(whole.run_t(logger2, 1).perform(), (10, 1));
}
