use guessing_game::game::{compare_guess, Game, Phase, Response, HIGHEST, LOWEST};
use guessing_game::input::{is_blank, parse_number, parse_signed, read_guess, read_number, trim_line};

fn game_on(secret: u32) -> Game {
    Game::with_secret(secret).expect("secret in range")
}

#[test]
fn scenario_secret_42() {
    let mut game = game_on(42);
    let mut answers = Vec::new();
    for line in ["abc\n", "10\n", "90\n", "42\n"] {
        answers.push(game.play_line(line));
    }
    assert_eq!(
        answers,
        vec![
            Response::NotANumber,
            Response::TooSmall,
            Response::TooBig,
            Response::YouWin
        ]
    );
    assert!(game.is_won());
    assert_eq!(game.disclosed_secret(), Some(42));
}

#[test]
fn guesses_below_secret_are_too_small() {
    let mut game = game_on(60);
    for g in 1..60u32 {
        assert_eq!(game.play_line(&format!("{}\n", g)), Response::TooSmall);
        assert_eq!(game.phase(), Phase::AwaitingGuess);
    }
    assert_eq!(game.disclosed_secret(), None);
}

#[test]
fn guesses_above_secret_are_too_big() {
    let mut game = game_on(60);
    for g in [61u32, 99, 100, 101, 5000, u32::MAX] {
        assert_eq!(game.play_line(&format!("{}\n", g)), Response::TooBig);
        assert!(!game.is_won());
    }
    for line in [
        "4294967296\n",
        "+99999999999999999999\n",
        " 123456789012345678901234567890123456789012345678901234567890 \n",
    ] {
        assert_eq!(game.play_line(line), Response::TooBig);
        assert!(!game.is_won());
    }
}

#[test]
fn right_guess_wins_and_discloses() {
    let mut game = game_on(7);
    assert_eq!(game.disclosed_secret(), None);
    assert_eq!(game.play_line("  7 \r\n"), Response::YouWin);
    assert_eq!(game.phase(), Phase::Won);
    assert_eq!(game.disclosed_secret(), Some(7));
}

#[test]
fn text_that_is_no_number_is_answered_and_kept_going() {
    let mut game = game_on(30);
    for line in ["", "\n", "abc", "-3", "3.5", "1 2", "+", "thirty", "1_000"] {
        assert_eq!(game.play_line(line), Response::NotANumber);
        assert_eq!(game.phase(), Phase::AwaitingGuess);
    }
    assert_eq!(game.play_line("30"), Response::YouWin);
    assert_eq!(game.disclosed_secret(), Some(30));
}

#[test]
fn same_wrong_guess_gets_same_answer() {
    let mut game = game_on(50);
    for _ in 0..5 {
        assert_eq!(game.play_line("20\n"), Response::TooSmall);
    }
    for _ in 0..5 {
        assert_eq!(game.play_line("80\n"), Response::TooBig);
    }
    assert_eq!(game.play_line("50\n"), Response::YouWin);
}

#[test]
fn boundary_secret_one_first_guess_one() {
    let mut game = game_on(1);
    assert_eq!(game.play_line("1\n"), Response::YouWin);
    assert!(game.is_won());
    assert_eq!(game.disclosed_secret(), Some(1));
}

#[test]
fn boundary_secret_hundred_first_guess_one() {
    let mut game = game_on(100);
    assert_eq!(game.play_line("1\n"), Response::TooSmall);
    assert!(!game.is_won());
}

#[test]
fn secret_must_lie_in_range() {
    assert!(Game::with_secret(0).is_none());
    assert!(Game::with_secret(101).is_none());
    assert!(Game::with_secret(LOWEST).is_some());
    assert!(Game::with_secret(HIGHEST).is_some());
}

#[test]
fn drawn_secret_lies_in_range_and_is_found() {
    for _ in 0..20 {
        let mut game = Game::start();
        let mut wins = 0;
        let mut found = 0;
        for g in LOWEST..=HIGHEST {
            if game.is_won() {
                break;
            }
            if game.answer(Some(g)) == Response::YouWin {
                wins += 1;
                found = g;
            }
        }
        assert_eq!(wins, 1);
        assert_eq!(game.disclosed_secret(), Some(found));
    }
}

#[test]
fn compare_gives_direction() {
    assert_eq!(compare_guess(3, 4), Response::TooSmall);
    assert_eq!(compare_guess(5, 4), Response::TooBig);
    assert_eq!(compare_guess(4, 4), Response::YouWin);
}

#[test]
fn answer_without_guess() {
    let mut game = game_on(10);
    assert_eq!(game.answer(None), Response::NotANumber);
    assert_eq!(game.answer(Some(9)), Response::TooSmall);
    assert_eq!(game.answer(Some(11)), Response::TooBig);
    assert_eq!(game.answer(Some(10)), Response::YouWin);
}

#[test]
fn guess_is_read_like_trim_then_parse_capped() {
    let lines = [
        "42", "42\n", " 42 \r\n", "\t\t7", "+5", "-5", "", " ", "\n", "+", "++1", "007",
        "4294967295", "4294967296", "99999999999999999999", "1_000", "12a", "a12", "1 2",
        "\u{3000}12\u{a0}", "\u{2003}9\u{2029}", "\u{200b}3", "\u{0660}", "\u{85}8\u{85}",
    ];
    for line in lines {
        let expected = line
            .trim()
            .parse::<u128>()
            .ok()
            .map(|v| v.min(u32::MAX as u128) as u32);
        assert_eq!(read_guess(line), expected, "line {:?}", line);
    }
}

#[test]
fn parse_number_cases() {
    assert_eq!(parse_number("0"), Some(0));
    assert_eq!(parse_number("+0"), Some(0));
    assert_eq!(parse_number("4294967295"), Some(u32::MAX));
    assert_eq!(parse_number("4294967296"), Some(u32::MAX));
    assert_eq!(parse_number("000000000000000000000000000000042"), Some(42));
    assert_eq!(parse_number("1234567890123456789012345678901234567890x"), None);
    assert_eq!(parse_number(" 1"), None);
    assert_eq!(parse_number("+-1"), None);
}

#[test]
fn trim_line_drops_white_space_only() {
    assert_eq!(trim_line("  a b \n"), "a b");
    assert_eq!(trim_line("\u{3000}x\u{205f}"), "x");
    assert_eq!(trim_line(" \t\n"), "");
    assert_eq!(trim_line("\u{200b}y"), "\u{200b}y");
}

#[test]
fn blank_matches_char_is_whitespace() {
    for code in 0u32..0x3100 {
        if let Some(c) = char::from_u32(code) {
            assert_eq!(is_blank(c), c.is_whitespace(), "code {:#x}", code);
        }
    }
}

#[test]
fn number_is_read_like_trim_then_parse() {
    let lines = [
        "0", "-0", "+0", "-", "+", "--1", "-+1", "12\n", " -12 ", "9223372036854775807",
        "9223372036854775808", "-9223372036854775808", "-9223372036854775809", "1e3", "",
        "\u{a0}-5\u{2028}", "x",
    ];
    for line in lines {
        assert_eq!(read_number(line), line.trim().parse::<i64>().ok(), "line {:?}", line);
    }
}

#[test]
fn parse_signed_cases() {
    assert_eq!(parse_signed("-17"), Some(-17));
    assert_eq!(parse_signed("+17"), Some(17));
    assert_eq!(parse_signed("-9223372036854775808"), Some(i64::MIN));
    assert_eq!(parse_signed("9223372036854775808"), None);
    assert_eq!(parse_signed("- 1"), None);
}
