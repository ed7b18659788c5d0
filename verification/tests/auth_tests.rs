use chess_engine::auth::{
    check_login, check_registration, md5_hash, push_hex, AuthError, User,
};
use chess_engine::board::Board;
use chess_engine::gamesave::{is_save_of, lies_in, SavedGame};
use chess_engine::movegen::generate_legal_moves;
use chess_engine::tips::TipsEngine;
use chess_engine::utils::Move;

#[test]
fn digest_of_bytes() {
    assert_eq!(md5_hash(b""), 0x123456789ABCDEF);
    assert_eq!(md5_hash(b"a"), 0x123456789ABCDEFu64.wrapping_mul(31).wrapping_add(97));
    let mut expected = 0x123456789ABCDEFu64;
    for b in b"correct horse" {
        expected = expected.wrapping_mul(31).wrapping_add(*b as u64);
    }
    assert_eq!(md5_hash(b"correct horse"), expected);
    assert_eq!(User::hash_password("correct horse"), format!("{:x}", expected));
    let mut text = String::from("0x");
    push_hex(&mut text, 0);
    assert_eq!(text, "0x0");
    push_hex(&mut text, 0xDEADBEEF);
    assert_eq!(text, "0x0deadbeef");
    push_hex(&mut text, u64::MAX);
    assert_eq!(text, "0x0deadbeefffffffffffffffff");
}

#[test]
fn new_user_and_password() {
    let user = User::new("magnus".to_string(), "secret".to_string());
    assert_eq!(user.username, "magnus");
    assert_eq!(user.password_hash, User::hash_password("secret"));
    assert_eq!(
        (user.games_played, user.games_won, user.games_drawn, user.games_lost),
        (0, 0, 0, 0)
    );
    assert_eq!(user.rating, 1200);
    assert!(user.verify_password("secret"));
    assert!(!user.verify_password("Secret"));
    assert!(!user.verify_password(""));
    let copy = user.copy();
    assert_eq!(copy.username, user.username);
    assert_eq!(copy.password_hash, user.password_hash);
    assert_eq!(copy.rating, user.rating);
}

#[test]
fn registration_rules() {
    assert_eq!(check_registration("", "pass", false), Err(AuthError::Empty));
    assert_eq!(check_registration("name", "", false), Err(AuthError::Empty));
    assert_eq!(check_registration("ab", "pass", false), Err(AuthError::ShortUsername));
    assert_eq!(check_registration("abc", "pas", false), Err(AuthError::ShortPassword));
    assert_eq!(check_registration("abc", "pass", true), Err(AuthError::Taken));
    assert_eq!(check_registration("ab", "pas", true), Err(AuthError::ShortUsername));
    assert_eq!(check_registration("abc", "pass", false), Ok(()));
    assert_eq!(check_registration("é", "pass", false), Err(AuthError::ShortUsername));
    assert_eq!(check_registration("éé", "pass", false), Ok(()));
    assert_eq!(AuthError::Empty.message(), "Username and password cannot be empty");
    assert_eq!(AuthError::ShortUsername.message(), "Username must be at least 3 characters");
    assert_eq!(AuthError::ShortPassword.message(), "Password must be at least 4 characters");
    assert_eq!(AuthError::Taken.message(), "Username already exists");
    assert_eq!(AuthError::WrongPassword.message(), "Invalid password");
    assert_eq!(AuthError::UnknownUser.message(), "User not found");
}

#[test]
fn login_rules() {
    let user = User::new("magnus".to_string(), "secret".to_string());
    assert_eq!(check_login(None, "secret").err(), Some(AuthError::UnknownUser));
    assert_eq!(check_login(Some(&user), "wrong").err(), Some(AuthError::WrongPassword));
    let logged = check_login(Some(&user), "secret").unwrap();
    assert_eq!(logged.username, "magnus");
    assert_eq!(logged.password_hash, user.password_hash);
}

#[test]
fn saved_game_record() {
    let mut board = Board::starting_position();
    let mut moves = Vec::new();
    for text in ["e2e4", "e7e5"] {
        let m = generate_legal_moves(&mut board)
            .into_iter()
            .find(|m| m.to_string() == text)
            .unwrap();
        board.make_move(m);
        moves.push(m);
    }
    moves.push(Move::with_promotion(52, 60, 4));
    let game = SavedGame::new(
        "magnus".to_string(),
        &board,
        &moves,
        "Human".to_string(),
        "Engine".to_string(),
        "1700000000".to_string(),
    );
    assert_eq!(game.username, "magnus");
    assert_eq!(game.fen, "rnbqkbnr/pppp1ppp/8/4p3/4P3/8/PPPP1PPP/RNBQKBNR w KQkq e6 0 2");
    assert_eq!(game.moves, vec!["e2e4", "e7e5", "e7e8q"]);
    assert_eq!(game.timestamp, "1700000000");
    assert_eq!(game.white_player, "Human");
    assert_eq!(game.black_player, "Engine");
    assert_eq!(game.file_name(), "magnus_1700000000.json");
    assert!(is_save_of("magnus_1700000000.json", "magnus"));
    assert!(is_save_of("magnus.json", "magnus"));
    assert!(!is_save_of("magnus_1700000000.txt", "magnus"));
    assert!(!is_save_of("bobby_1700000000.json", "magnus"));
    assert!(!is_save_of("mag", "magnus"));
    assert!(is_save_of(".json", ""));
    assert!(!is_save_of("json", ""));
    assert!(lies_in("abcdef", 2, "cd"));
    assert!(!lies_in("abcdef", 2, "ce"));
    assert!(!lies_in("abcdef", 5, "fg"));
    assert!(lies_in("abcdef", 6, ""));
    assert!(!lies_in("abcdef", 7, ""));
}

#[test]
fn tips_by_position() {
    let start = Board::starting_position();
    assert_eq!(
        TipsEngine::get_tip(&start),
        "💡 TIP: Control the center with your pawns (e4, d4, e5, d5)!"
    );
    assert!(TipsEngine::check_development_tip(&start).is_none());
    let late = Board::from_fen("rnbqkbnr/pppppppp/8/8/4P3/8/PPPP1PPP/RNBQKBNR w KQkq - 0 5")
        .unwrap();
    assert_eq!(
        TipsEngine::get_tip(&late),
        "💡 TIP: Develop your knights and bishops before moving the same piece twice!"
    );
    let centre = Board::from_fen("r3kb1r/pppppppp/8/8/4P3/2N2N2/PPPP1PPP/R1BQKB1R w KQkq - 0 9")
        .unwrap();
    assert!(TipsEngine::check_center_control_tip(&centre).is_none());
    assert_eq!(
        TipsEngine::get_tip(&centre),
        "💡 TIP: Develop your knights and bishops before moving the same piece twice!"
    );
    let castle = Board::from_fen("r3kb1r/pppppppp/8/8/4P3/2NB1N2/PPPP1PPP/R1BQK2R w KQkq - 0 9")
        .unwrap();
    assert_eq!(
        TipsEngine::get_tip(&castle),
        "💡 TIP: Consider castling to get your king to safety!"
    );
    let lazy = Board::from_fen("4k3/8/8/8/4P3/8/8/N2QB1K1 w - - 0 20").unwrap();
    assert_eq!(
        TipsEngine::get_tip(&lazy),
        "💡 TIP: Activate your pieces! Move them to better squares."
    );
    let checked = Board::from_fen("4k3/8/8/8/4P3/8/4r3/4K3 w - - 0 20").unwrap();
    assert_eq!(
        TipsEngine::get_tip(&checked),
        "⚠️  You're in CHECK! You must move your king, block, or capture the attacking piece."
    );
    let checking = Board::from_fen("4k3/4R3/8/8/4P3/8/8/6K1 w - - 0 20").unwrap();
    assert_eq!(
        TipsEngine::get_tip(&checking),
        "✅ CHECK! You're attacking the opponent's king!"
    );
    let quiet = Board::from_fen("4k3/8/8/8/4P3/8/8/6K1 w - - 3 20").unwrap();
    assert_eq!(
        TipsEngine::get_tip(&quiet),
        "♜ Rooks belong on open files and the 7th rank!"
    );
    assert_eq!(
        TipsEngine::get_general_tip(&start),
        "♞ Knights are best on the rim when they're dim - keep them central!"
    );
}

#[test]
fn hints() {
    let mut mate = Board::from_fen("7k/6Q1/6K1/8/8/8/8/8 b - - 0 1").unwrap();
    assert_eq!(TipsEngine::get_hint(&mut mate), "No legal moves available!");
    let mut capture = Board::from_fen("4k3/8/8/3q4/4P3/8/8/4K3 w - - 0 1").unwrap();
    assert_eq!(
        TipsEngine::get_hint(&mut capture),
        "💭 HINT: Consider e4d5 (captures center, or gives check)"
    );
    assert_eq!(capture.to_fen(), "4k3/8/8/3q4/4P3/8/8/4K3 w - - 0 1");
    let mut quiet = Board::from_fen("4k3/8/8/8/8/8/8/K7 w - - 0 1").unwrap();
    let hint = TipsEngine::get_hint(&mut quiet);
    assert!(hint.starts_with("💭 HINT: a1"));
    assert!(hint.ends_with(" is a decent move"));
    let mut start = Board::starting_position();
    let hint = TipsEngine::get_hint(&mut start);
    assert!(
        hint == "💭 HINT: Consider d2d4 (captures center, or gives check)"
            || hint == "💭 HINT: Consider e2e4 (captures center, or gives check)"
    );
}
