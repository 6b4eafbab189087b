use hexe::engine::parse_number;
use hexe::table::Table;
use hexe::{Command, Engine, Limits, OptionRequest, Options};

fn run(text: &str) -> Vec<Command> {
    let mut engine = Engine::new(Options::default());
    let mut uci = engine.uci();
    uci.run(text)
}

#[test]
fn lines_up_to_quit() {
    let out = run("uci\nisready\nquit\ngo");
    assert_eq!(out.len(), 3);
    assert!(matches!(out[0], Command::Uci));
    assert!(matches!(out[1], Command::IsReady));
    assert!(matches!(out[2], Command::Quit));
}

#[test]
fn empty_text_is_unknown() {
    let out = run("");
    assert_eq!(out.len(), 1);
    assert!(matches!(out[0], Command::Unknown));
    let out = run("  hello there ");
    assert_eq!(out.len(), 1);
    assert!(matches!(out[0], Command::Unknown));
}

#[test]
fn line_ends() {
    let out = run("isready\r\nstop\r\n");
    assert_eq!(out.len(), 2);
    assert!(matches!(out[0], Command::IsReady));
    assert!(matches!(out[1], Command::Stop));
    let out = run("\n\nuci");
    assert_eq!(out.len(), 3);
    assert!(matches!(out[0], Command::Unknown));
    assert!(matches!(out[2], Command::Uci));
    let out = run("setoption name a value b\r");
    match &out[0] {
        Command::SetOption(_, value, _) => assert_eq!(value, "b"),
        _ => panic!("not a setoption command"),
    }
}

#[test]
fn every_command_word() {
    let out = run("stop\nponderhit\nposition startpos\nucinewgame\n\n");
    assert_eq!(out.len(), 5);
    assert!(matches!(out[0], Command::Stop));
    assert!(matches!(out[1], Command::PonderHit));
    assert!(matches!(out[2], Command::Position));
    assert!(matches!(out[3], Command::NewGame));
    assert!(matches!(out[4], Command::Unknown));
}

#[test]
fn set_option_words() {
    let out = run("setoption name Hash value 32");
    match &out[0] {
        Command::SetOption(name, value, req) => {
            assert_eq!(name, "Hash");
            assert_eq!(value, "32");
            assert_eq!(*req, OptionRequest::Hash(Some(32)));
        }
        _ => panic!("not a setoption command"),
    }
    let out = run("setoption name Clear Hash Table value now or never");
    match &out[0] {
        Command::SetOption(name, value, req) => {
            assert_eq!(name, "Clear Hash Table");
            assert_eq!(value, "now or never");
            assert_eq!(*req, OptionRequest::Unknown);
        }
        _ => panic!("not a setoption command"),
    }
    let out = run("setoption name THREADS value 4");
    assert!(matches!(&out[0], Command::SetOption(_, _, OptionRequest::Threads)));
    let out = run("setoption name hash value +5");
    assert!(matches!(&out[0], Command::SetOption(_, _, OptionRequest::Hash(Some(5)))));
    let out = run("go depth +7");
    assert!(matches!(&out[0], Command::Go(l, _) if l.depth == 7));
    let out = run("setoption name hash value lots");
    assert!(matches!(&out[0], Command::SetOption(_, _, OptionRequest::Hash(None))));
}

#[test]
fn go_limits() {
    let out = run("go wtime 1000 btime 2000 winc 10 binc 20 movestogo 30 depth 5 nodes 99 mate 3 movetime 700 ponder infinite");
    match &out[0] {
        Command::Go(l, moves) => {
            let exp = Limits {
                ponder: true,
                infinite: true,
                white_time: 1000,
                black_time: 2000,
                white_inc: 10,
                black_inc: 20,
                moves_to_go: 30,
                depth: 5,
                nodes: 99,
                mate: 3,
                move_time: 700,
            };
            assert_eq!(*l, exp);
            assert!(moves.is_empty());
        }
        _ => panic!("not a go command"),
    }
    let out = run("go depth x nodes 7 searchmoves e2e4 d2d4");
    match &out[0] {
        Command::Go(l, moves) => {
            assert_eq!(l.depth, 0);
            assert_eq!(l.nodes, 7);
            assert_eq!(moves.len(), 2);
            assert_eq!(moves[0], "e2e4");
            assert_eq!(moves[1], "d2d4");
        }
        _ => panic!("not a go command"),
    }
}

#[test]
fn start_with_each_text() {
    let mut engine = Engine::default();
    let mut uci = engine.uci();
    let texts = vec!["quit".to_string(), "isready".to_string()];
    let out = uci.start_with(&texts);
    assert_eq!(out.len(), 2);
    assert!(matches!(out[0][0], Command::Quit));
    assert!(matches!(out[1][0], Command::IsReady));
    let _ = uci.engine();
    let _ = uci.engine_mut();
}

#[test]
fn numbers() {
    assert_eq!(parse_number("0"), Some(0));
    assert_eq!(parse_number("18446744073709551615"), Some(u64::MAX));
    assert_eq!(parse_number("18446744073709551616"), None);
    assert_eq!(parse_number(""), None);
    assert_eq!(parse_number("12a"), None);
    assert_eq!(parse_number("-1"), None);
    assert_eq!(parse_number("+5"), Some(5));
    assert_eq!(parse_number("+"), None);
    assert_eq!(parse_number("++5"), None);
    assert_eq!(parse_number("+18446744073709551615"), Some(u64::MAX));
}

#[test]
fn options() {
    let mut o = Options::default().num_threads(4);
    assert!(!o.set("Hash", "1"));
    let _ = Engine::new(o);
}

#[test]
fn table_sizes() {
    assert_eq!(Table::new(3, true).size_mb(), 3);
    assert_eq!(Table::new(3, false).size_mb(), 4);
    assert_eq!(Table::new(0, false).size_mb(), 1);
    let mut t = Table::new(1, false);
    assert_eq!(t.size_mb(), 1);
    assert_eq!(t.size(), 16384 * 16);
    t.resize(3);
    assert_eq!(t.size_mb(), 4);
    t.resize_exact(2);
    assert_eq!(t.size_mb(), 2);
    t.clear();
    assert_eq!(t.size_mb(), 2);
    assert_eq!(hexe::table::next_power_of_two(0), 1);
    assert_eq!(hexe::table::next_power_of_two(5), 8);
    assert_eq!(hexe::table::next_power_of_two(8), 8);
}
