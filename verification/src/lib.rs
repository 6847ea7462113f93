pub mod bitboard;
pub mod constants;
pub mod position_helper;
pub mod position;
pub mod game_move;
pub mod game_move_list;
pub mod move_maker;
pub mod king_attack_ray_analyzer;
pub mod attacks;
pub mod pieces;
pub mod position_analyzer;
pub mod fen;
pub mod san;
pub mod perft;
pub mod move_generator;
pub mod move_text;
pub mod legal_moves_helper;
pub mod move_maker_test_helper;
pub mod pgn;
pub mod uci;
pub mod move_encoding;
pub mod position_converter;
pub mod move_count;
pub mod stockfish;
pub mod legality;
pub mod board_integrity;
pub mod king_safety;
