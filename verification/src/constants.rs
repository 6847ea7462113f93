use vstd::prelude::*;

verus! {

/// The starting position in Forsyth-Edwards notation.
pub const START_POSITION: &'static str = "rnbqkbnr/pppppppp/8/8/8/8/PPPPPPPP/RNBQKBNR w KQkq - 0 1";

/// A side of the board.
#[derive(Clone, Copy, Debug, PartialEq, Eq, Structural)]
pub enum PlayerColour {
    WHITE,
    BLACK,
}

/// A kind of chess piece (`NONE` marks "no piece", e.g. no promotion).
#[derive(Clone, Copy, Debug, PartialEq, Eq, Structural)]
pub enum PieceType {
    PAWN,
    KNIGHT,
    BISHOP,
    ROOK,
    QUEEN,
    KING,
    NONE,
}

/// A side of the board a king castles towards.
#[derive(Clone, Copy, Debug, PartialEq, Eq, Structural)]
pub enum CastleSide {
    KINGSIDE,
    QUEENSIDE,
}

/// The number of each piece type (pawn 0, knight 1, ..., king 5, none 6).
pub open spec fn piece_type_number(p: PieceType) -> u8 {
    match p {
        PieceType::PAWN => 0,
        PieceType::KNIGHT => 1,
        PieceType::BISHOP => 2,
        PieceType::ROOK => 3,
        PieceType::QUEEN => 4,
        PieceType::KING => 5,
        PieceType::NONE => 6,
    }
}

impl PieceType {
    /// The number of the piece type (pawn 0, knight 1, ..., king 5, none 6).
    pub fn number(&self) -> (r: u8)
        ensures
            r == piece_type_number(*self),
    {
        match self {
            PieceType::PAWN => 0,
            PieceType::KNIGHT => 1,
            PieceType::BISHOP => 2,
            PieceType::ROOK => 3,
            PieceType::QUEEN => 4,
            PieceType::KING => 5,
            PieceType::NONE => 6,
        }
    }
}

pub const RANK_1: u64 = 0xffu64;
pub const RANK_2: u64 = 0xff00u64;
pub const RANK_3: u64 = 0xff0000u64;
pub const RANK_4: u64 = 0xff000000u64;
pub const RANK_5: u64 = 0xff00000000u64;
pub const RANK_6: u64 = 0xff0000000000u64;
pub const RANK_7: u64 = 0xff000000000000u64;
pub const RANK_8: u64 = 0xff00000000000000u64;

/// The ranks, first to eighth.
pub const RANKS: [u64; 8] = [RANK_1, RANK_2, RANK_3, RANK_4, RANK_5, RANK_6, RANK_7, RANK_8];

pub const A_FILE: u64 = 0x0101010101010101u64;
pub const B_FILE: u64 = 0x0202020202020202u64;
pub const C_FILE: u64 = 0x0404040404040404u64;
pub const D_FILE: u64 = 0x0808080808080808u64;
pub const E_FILE: u64 = 0x1010101010101010u64;
pub const F_FILE: u64 = 0x2020202020202020u64;
pub const G_FILE: u64 = 0x4040404040404040u64;
pub const H_FILE: u64 = 0x8080808080808080u64;

/// The files, a to h.
pub const FILES: [u64; 8] = [A_FILE, B_FILE, C_FILE, D_FILE, E_FILE, F_FILE, G_FILE, H_FILE];

/// The four corner squares a1, h1, a8, h8.
pub const CORNERS: u64 = 0x8100000000000081u64;

/// Number of output planes of the move encoding: one per target square, then
/// nine for under-promotions (three file directions times knight, bishop, rook).
pub const NN_TOTAL_OUTPUT_PLANES: usize = 73;

/// Number of positions of a game the network sees: the current one and those before it.
pub const NN_MOVE_HISTORY_PER_POS: usize = 8;

/// The index of each square on the board flipped vertically (rank 1 and rank 8 swapped).
pub const VERTICAL_FLIP_INDICES: [u8; 64] = [
    56, 57, 58, 59, 60, 61, 62, 63,
    48, 49, 50, 51, 52, 53, 54, 55,
    40, 41, 42, 43, 44, 45, 46, 47,
    32, 33, 34, 35, 36, 37, 38, 39,
    24, 25, 26, 27, 28, 29, 30, 31,
    16, 17, 18, 19, 20, 21, 22, 23,
    8, 9, 10, 11, 12, 13, 14, 15,
    0, 1, 2, 3, 4, 5, 6, 7,
];

/// Squares on the a1-h8 direction diagonal through each square, the square itself excluded.
pub const DIAGONALS: [u64; 64] = [
    0x8040201008040200u64, 0x80402010080400u64, 0x804020100800u64, 0x8040201000u64,
    0x80402000u64, 0x804000u64, 0x8000u64, 0x0u64,
    0x4020100804020000u64, 0x8040201008040001u64, 0x80402010080002u64, 0x804020100004u64,
    0x8040200008u64, 0x80400010u64, 0x800020u64, 0x40u64,
    0x2010080402000000u64, 0x4020100804000100u64, 0x8040201008000201u64, 0x80402010000402u64,
    0x804020000804u64, 0x8040001008u64, 0x80002010u64, 0x4020u64,
    0x1008040200000000u64, 0x2010080400010000u64, 0x4020100800020100u64, 0x8040201000040201u64,
    0x80402000080402u64, 0x804000100804u64, 0x8000201008u64, 0x402010u64,
    0x804020000000000u64, 0x1008040001000000u64, 0x2010080002010000u64, 0x4020100004020100u64,
    0x8040200008040201u64, 0x80400010080402u64, 0x800020100804u64, 0x40201008u64,
    0x402000000000000u64, 0x804000100000000u64, 0x1008000201000000u64, 0x2010000402010000u64,
    0x4020000804020100u64, 0x8040001008040201u64, 0x80002010080402u64, 0x4020100804u64,
    0x200000000000000u64, 0x400010000000000u64, 0x800020100000000u64, 0x1000040201000000u64,
    0x2000080402010000u64, 0x4000100804020100u64, 0x8000201008040201u64, 0x402010080402u64,
    0x0u64, 0x1000000000000u64, 0x2010000000000u64, 0x4020100000000u64,
    0x8040201000000u64, 0x10080402010000u64, 0x20100804020100u64, 0x40201008040201u64,
];

/// Squares on the a8-h1 direction diagonal through each square, the square itself excluded.
pub const ANTI_DIAGONALS: [u64; 64] = [
    0x0u64, 0x100u64, 0x10200u64, 0x1020400u64,
    0x102040800u64, 0x10204081000u64, 0x1020408102000u64, 0x102040810204000u64,
    0x2u64, 0x10004u64, 0x1020008u64, 0x102040010u64,
    0x10204080020u64, 0x1020408100040u64, 0x102040810200080u64, 0x204081020400000u64,
    0x204u64, 0x1000408u64, 0x102000810u64, 0x10204001020u64,
    0x1020408002040u64, 0x102040810004080u64, 0x204081020008000u64, 0x408102040000000u64,
    0x20408u64, 0x100040810u64, 0x10200081020u64, 0x1020400102040u64,
    0x102040800204080u64, 0x204081000408000u64, 0x408102000800000u64, 0x810204000000000u64,
    0x2040810u64, 0x10004081020u64, 0x1020008102040u64, 0x102040010204080u64,
    0x204080020408000u64, 0x408100040800000u64, 0x810200080000000u64, 0x1020400000000000u64,
    0x204081020u64, 0x1000408102040u64, 0x102000810204080u64, 0x204001020408000u64,
    0x408002040800000u64, 0x810004080000000u64, 0x1020008000000000u64, 0x2040000000000000u64,
    0x20408102040u64, 0x100040810204080u64, 0x200081020408000u64, 0x400102040800000u64,
    0x800204080000000u64, 0x1000408000000000u64, 0x2000800000000000u64, 0x4000000000000000u64,
    0x2040810204080u64, 0x4081020408000u64, 0x8102040800000u64, 0x10204080000000u64,
    0x20408000000000u64, 0x40800000000000u64, 0x80000000000000u64, 0x0u64,
];

/// The bitboard of each single square.
pub const SINGLE_BITBOARDS: [u64; 64] = [
    0x1u64, 0x2u64, 0x4u64, 0x8u64,
    0x10u64, 0x20u64, 0x40u64, 0x80u64,
    0x100u64, 0x200u64, 0x400u64, 0x800u64,
    0x1000u64, 0x2000u64, 0x4000u64, 0x8000u64,
    0x10000u64, 0x20000u64, 0x40000u64, 0x80000u64,
    0x100000u64, 0x200000u64, 0x400000u64, 0x800000u64,
    0x1000000u64, 0x2000000u64, 0x4000000u64, 0x8000000u64,
    0x10000000u64, 0x20000000u64, 0x40000000u64, 0x80000000u64,
    0x100000000u64, 0x200000000u64, 0x400000000u64, 0x800000000u64,
    0x1000000000u64, 0x2000000000u64, 0x4000000000u64, 0x8000000000u64,
    0x10000000000u64, 0x20000000000u64, 0x40000000000u64, 0x80000000000u64,
    0x100000000000u64, 0x200000000000u64, 0x400000000000u64, 0x800000000000u64,
    0x1000000000000u64, 0x2000000000000u64, 0x4000000000000u64, 0x8000000000000u64,
    0x10000000000000u64, 0x20000000000000u64, 0x40000000000000u64, 0x80000000000000u64,
    0x100000000000000u64, 0x200000000000000u64, 0x400000000000000u64, 0x800000000000000u64,
    0x1000000000000000u64, 0x2000000000000000u64, 0x4000000000000000u64, 0x8000000000000000u64,
];

/// Squares a knight on each square attacks.
pub const KNIGHT_ATTACKS: [u64; 64] = [
    0x20400u64, 0x50800u64, 0xa1100u64, 0x142200u64,
    0x284400u64, 0x508800u64, 0xa01000u64, 0x402000u64,
    0x2040004u64, 0x5080008u64, 0xa110011u64, 0x14220022u64,
    0x28440044u64, 0x50880088u64, 0xa0100010u64, 0x40200020u64,
    0x204000402u64, 0x508000805u64, 0xa1100110au64, 0x1422002214u64,
    0x2844004428u64, 0x5088008850u64, 0xa0100010a0u64, 0x4020002040u64,
    0x20400040200u64, 0x50800080500u64, 0xa1100110a00u64, 0x142200221400u64,
    0x284400442800u64, 0x508800885000u64, 0xa0100010a000u64, 0x402000204000u64,
    0x2040004020000u64, 0x5080008050000u64, 0xa1100110a0000u64, 0x14220022140000u64,
    0x28440044280000u64, 0x50880088500000u64, 0xa0100010a00000u64, 0x40200020400000u64,
    0x204000402000000u64, 0x508000805000000u64, 0xa1100110a000000u64, 0x1422002214000000u64,
    0x2844004428000000u64, 0x5088008850000000u64, 0xa0100010a0000000u64, 0x4020002040000000u64,
    0x400040200000000u64, 0x800080500000000u64, 0x1100110a00000000u64, 0x2200221400000000u64,
    0x4400442800000000u64, 0x8800885000000000u64, 0x100010a000000000u64, 0x2000204000000000u64,
    0x4020000000000u64, 0x8050000000000u64, 0x110a0000000000u64, 0x22140000000000u64,
    0x44280000000000u64, 0x88500000000000u64, 0x10a00000000000u64, 0x20400000000000u64,
];

/// Squares a bishop on each square attacks on an empty board.
pub const BISHOP_ATTACKS: [u64; 64] = [
    0x8040201008040200u64, 0x80402010080500u64, 0x804020110a00u64, 0x8041221400u64,
    0x182442800u64, 0x10204885000u64, 0x102040810a000u64, 0x102040810204000u64,
    0x4020100804020002u64, 0x8040201008050005u64, 0x804020110a000au64, 0x804122140014u64,
    0x18244280028u64, 0x1020488500050u64, 0x102040810a000a0u64, 0x204081020400040u64,
    0x2010080402000204u64, 0x4020100805000508u64, 0x804020110a000a11u64, 0x80412214001422u64,
    0x1824428002844u64, 0x102048850005088u64, 0x2040810a000a010u64, 0x408102040004020u64,
    0x1008040200020408u64, 0x2010080500050810u64, 0x4020110a000a1120u64, 0x8041221400142241u64,
    0x182442800284482u64, 0x204885000508804u64, 0x40810a000a01008u64, 0x810204000402010u64,
    0x804020002040810u64, 0x1008050005081020u64, 0x20110a000a112040u64, 0x4122140014224180u64,
    0x8244280028448201u64, 0x488500050880402u64, 0x810a000a0100804u64, 0x1020400040201008u64,
    0x402000204081020u64, 0x805000508102040u64, 0x110a000a11204080u64, 0x2214001422418000u64,
    0x4428002844820100u64, 0x8850005088040201u64, 0x10a000a010080402u64, 0x2040004020100804u64,
    0x200020408102040u64, 0x500050810204080u64, 0xa000a1120408000u64, 0x1400142241800000u64,
    0x2800284482010000u64, 0x5000508804020100u64, 0xa000a01008040201u64, 0x4000402010080402u64,
    0x2040810204080u64, 0x5081020408000u64, 0xa112040800000u64, 0x14224180000000u64,
    0x28448201000000u64, 0x50880402010000u64, 0xa0100804020100u64, 0x40201008040201u64,
];

/// Squares a rook on each square attacks on an empty board.
pub const ROOK_ATTACKS: [u64; 64] = [
    0x1010101010101feu64, 0x2020202020202fdu64, 0x4040404040404fbu64, 0x8080808080808f7u64,
    0x10101010101010efu64, 0x20202020202020dfu64, 0x40404040404040bfu64, 0x808080808080807fu64,
    0x10101010101fe01u64, 0x20202020202fd02u64, 0x40404040404fb04u64, 0x80808080808f708u64,
    0x101010101010ef10u64, 0x202020202020df20u64, 0x404040404040bf40u64, 0x8080808080807f80u64,
    0x101010101fe0101u64, 0x202020202fd0202u64, 0x404040404fb0404u64, 0x808080808f70808u64,
    0x1010101010ef1010u64, 0x2020202020df2020u64, 0x4040404040bf4040u64, 0x80808080807f8080u64,
    0x1010101fe010101u64, 0x2020202fd020202u64, 0x4040404fb040404u64, 0x8080808f7080808u64,
    0x10101010ef101010u64, 0x20202020df202020u64, 0x40404040bf404040u64, 0x808080807f808080u64,
    0x10101fe01010101u64, 0x20202fd02020202u64, 0x40404fb04040404u64, 0x80808f708080808u64,
    0x101010ef10101010u64, 0x202020df20202020u64, 0x404040bf40404040u64, 0x8080807f80808080u64,
    0x101fe0101010101u64, 0x202fd0202020202u64, 0x404fb0404040404u64, 0x808f70808080808u64,
    0x1010ef1010101010u64, 0x2020df2020202020u64, 0x4040bf4040404040u64, 0x80807f8080808080u64,
    0x1fe010101010101u64, 0x2fd020202020202u64, 0x4fb040404040404u64, 0x8f7080808080808u64,
    0x10ef101010101010u64, 0x20df202020202020u64, 0x40bf404040404040u64, 0x807f808080808080u64,
    0xfe01010101010101u64, 0xfd02020202020202u64, 0xfb04040404040404u64, 0xf708080808080808u64,
    0xef10101010101010u64, 0xdf20202020202020u64, 0xbf40404040404040u64, 0x7f80808080808080u64,
];

/// Squares a queen on each square attacks on an empty board.
pub const QUEEN_ATTACKS: [u64; 64] = [
    0x81412111090503feu64, 0x2824222120a07fdu64, 0x404844424150efbu64, 0x8080888492a1cf7u64,
    0x10101011925438efu64, 0x2020212224a870dfu64, 0x404142444850e0bfu64, 0x8182848890a0c07fu64,
    0x412111090503fe03u64, 0x824222120a07fd07u64, 0x4844424150efb0eu64, 0x80888492a1cf71cu64,
    0x101011925438ef38u64, 0x20212224a870df70u64, 0x4142444850e0bfe0u64, 0x82848890a0c07fc0u64,
    0x2111090503fe0305u64, 0x4222120a07fd070au64, 0x844424150efb0e15u64, 0x888492a1cf71c2au64,
    0x1011925438ef3854u64, 0x212224a870df70a8u64, 0x42444850e0bfe050u64, 0x848890a0c07fc0a0u64,
    0x11090503fe030509u64, 0x22120a07fd070a12u64, 0x4424150efb0e1524u64, 0x88492a1cf71c2a49u64,
    0x11925438ef385492u64, 0x2224a870df70a824u64, 0x444850e0bfe05048u64, 0x8890a0c07fc0a090u64,
    0x90503fe03050911u64, 0x120a07fd070a1222u64, 0x24150efb0e152444u64, 0x492a1cf71c2a4988u64,
    0x925438ef38549211u64, 0x24a870df70a82422u64, 0x4850e0bfe0504844u64, 0x90a0c07fc0a09088u64,
    0x503fe0305091121u64, 0xa07fd070a122242u64, 0x150efb0e15244484u64, 0x2a1cf71c2a498808u64,
    0x5438ef3854921110u64, 0xa870df70a8242221u64, 0x50e0bfe050484442u64, 0xa0c07fc0a0908884u64,
    0x3fe030509112141u64, 0x7fd070a12224282u64, 0xefb0e1524448404u64, 0x1cf71c2a49880808u64,
    0x38ef385492111010u64, 0x70df70a824222120u64, 0xe0bfe05048444241u64, 0xc07fc0a090888482u64,
    0xfe03050911214181u64, 0xfd070a1222428202u64, 0xfb0e152444840404u64, 0xf71c2a4988080808u64,
    0xef38549211101010u64, 0xdf70a82422212020u64, 0xbfe0504844424140u64, 0x7fc0a09088848281u64,
];

/// Squares a king on each square attacks.
pub const KING_ATTACKS: [u64; 64] = [
    0x302u64, 0x705u64, 0xe0au64, 0x1c14u64,
    0x3828u64, 0x7050u64, 0xe0a0u64, 0xc040u64,
    0x30203u64, 0x70507u64, 0xe0a0eu64, 0x1c141cu64,
    0x382838u64, 0x705070u64, 0xe0a0e0u64, 0xc040c0u64,
    0x3020300u64, 0x7050700u64, 0xe0a0e00u64, 0x1c141c00u64,
    0x38283800u64, 0x70507000u64, 0xe0a0e000u64, 0xc040c000u64,
    0x302030000u64, 0x705070000u64, 0xe0a0e0000u64, 0x1c141c0000u64,
    0x3828380000u64, 0x7050700000u64, 0xe0a0e00000u64, 0xc040c00000u64,
    0x30203000000u64, 0x70507000000u64, 0xe0a0e000000u64, 0x1c141c000000u64,
    0x382838000000u64, 0x705070000000u64, 0xe0a0e0000000u64, 0xc040c0000000u64,
    0x3020300000000u64, 0x7050700000000u64, 0xe0a0e00000000u64, 0x1c141c00000000u64,
    0x38283800000000u64, 0x70507000000000u64, 0xe0a0e000000000u64, 0xc040c000000000u64,
    0x302030000000000u64, 0x705070000000000u64, 0xe0a0e0000000000u64, 0x1c141c0000000000u64,
    0x3828380000000000u64, 0x7050700000000000u64, 0xe0a0e00000000000u64, 0xc040c00000000000u64,
    0x203000000000000u64, 0x507000000000000u64, 0xa0e000000000000u64, 0x141c000000000000u64,
    0x2838000000000000u64, 0x5070000000000000u64, 0xa0e0000000000000u64, 0x40c0000000000000u64,
];

} // verus!
