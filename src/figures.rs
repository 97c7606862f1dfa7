use vstd::prelude::*;
use vstd::string::StringExecFns;

verus! {

/// The side a piece belongs to.
#[derive(Debug, Clone, Copy, PartialEq, Eq, Structural)]
pub enum ChessColor {
    White,
    Black,
}

/// The movement class of a piece. `Fort` is the rook.
#[derive(Debug, Clone, Copy, PartialEq, Eq, Structural)]
pub enum FigureType {
    Pawn,
    Fort,
    Bishop,
    Knight,
    King,
    Queen,
}

/// A board location as (column, row). It lies on the board when both
/// coordinates are below 8.
#[derive(Debug, Clone, Copy, PartialEq, Eq, Structural)]
pub struct Square {
    pub col: u8,
    pub row: u8,
}

/// Per-piece history used by the pawn and castling rules.
#[derive(Debug, Clone, Copy, PartialEq, Eq, Structural)]
pub struct FigureMetadata {
    pub number_of_moves: u16,
    pub is_enpassant_valid: bool,
}

/// A piece on the board.
#[derive(Debug, Clone, Copy, PartialEq, Eq, Structural)]
pub struct Figure {
    pub figure_type: FigureType,
    pub color: ChessColor,
    pub current_position: Square,
    pub metadata: FigureMetadata,
}

pub open spec fn on_board(c: int, r: int) -> bool {
    0 <= c < 8 && 0 <= r < 8
}

impl Square {
    pub open spec fn valid(self) -> bool {
        self.col < 8 && self.row < 8
    }

    pub open spec fn index(self) -> int {
        8 * self.row + self.col
    }

    /// Builds a square from coordinates, refusing those off the board.
    pub fn new(col: u8, row: u8) -> (r: Option<Square>)
        ensures
            r is Some <==> (col < 8 && row < 8),
            r is Some ==> r->Some_0 == (Square { col, row }),
    {
        if col < 8 && row < 8 {
            Some(Square { col, row })
        } else {
            None
        }
    }

    pub fn is_valid(&self) -> (r: bool)
        ensures
            r == self.valid(),
    {
        self.col < 8 && self.row < 8
    }
}

impl ChessColor {
    pub open spec fn opponent(self) -> ChessColor {
        match self {
            ChessColor::White => ChessColor::Black,
            ChessColor::Black => ChessColor::White,
        }
    }

    /// Row direction in which this side's pawns advance.
    pub open spec fn forward(self) -> int {
        match self {
            ChessColor::White => 1,
            ChessColor::Black => -1,
        }
    }

    /// Row on which this side's pawns start.
    pub open spec fn pawn_rank(self) -> int {
        match self {
            ChessColor::White => 1,
            ChessColor::Black => 6,
        }
    }

    /// Row on which this side's pawns promote.
    pub open spec fn last_rank(self) -> int {
        match self {
            ChessColor::White => 7,
            ChessColor::Black => 0,
        }
    }

    pub fn other(&self) -> (r: ChessColor)
        ensures
            r == self.opponent(),
    {
        match self {
            ChessColor::White => ChessColor::Black,
            ChessColor::Black => ChessColor::White,
        }
    }
}


impl FigureType {
    pub open spec fn name(self) -> Seq<char> {
        match self {
            FigureType::Pawn => "PAWN"@,
            FigureType::Fort => "FORT"@,
            FigureType::Bishop => "BISHOP"@,
            FigureType::Knight => "KNIGHT"@,
            FigureType::King => "KING"@,
            FigureType::Queen => "QUEEN"@,
        }
    }

    /// The upper-case name of the kind, as hosts key their artwork.
    pub fn get_str(&self) -> (r: &'static str)
        ensures
            r@ == self.name(),
    {
        match self {
            FigureType::Pawn => "PAWN",
            FigureType::Fort => "FORT",
            FigureType::Bishop => "BISHOP",
            FigureType::Knight => "KNIGHT",
            FigureType::King => "KING",
            FigureType::Queen => "QUEEN",
        }
    }
}

impl ChessColor {
    pub open spec fn name(self) -> Seq<char> {
        match self {
            ChessColor::White => "WHITE"@,
            ChessColor::Black => "BLACK"@,
        }
    }

    /// The upper-case name of the side.
    pub fn get_str(&self) -> (r: &'static str)
        ensures
            r@ == self.name(),
    {
        match self {
            ChessColor::White => "WHITE",
            ChessColor::Black => "BLACK",
        }
    }
}

impl Figure {
    fn build(figure_type: FigureType, color: ChessColor, pos: (u8, u8)) -> (r: Figure)
        ensures
            r == (Figure {
                figure_type,
                color,
                current_position: Square { col: pos.0, row: pos.1 },
                metadata: FigureMetadata { number_of_moves: 0, is_enpassant_valid: false },
            }),
    {
        Figure {
            figure_type,
            color,
            current_position: Square { col: pos.0, row: pos.1 },
            metadata: FigureMetadata { number_of_moves: 0, is_enpassant_valid: false },
        }
    }

    /// The name a host keys this piece's artwork by, such as `WHITE_PAWN`.
    pub fn get_name(&self) -> (r: String)
        ensures
            r@ == self.color.name() + "_"@ + self.figure_type.name(),
    {
        String::from_str(self.color.get_str()).concat("_").concat(self.figure_type.get_str())
    }

    /// A fresh black pawn on `pos` (column, row).
    pub fn build_b_pawn(pos: (u8, u8)) -> (r: Figure)
        ensures
            r.figure_type == FigureType::Pawn,
            r.color == ChessColor::Black,
            r.current_position == (Square { col: pos.0, row: pos.1 }),
            r.metadata == (FigureMetadata { number_of_moves: 0, is_enpassant_valid: false }),
    {
        Figure::build(FigureType::Pawn, ChessColor::Black, pos)
    }

    /// A fresh black fort on `pos` (column, row).
    pub fn build_b_fort(pos: (u8, u8)) -> (r: Figure)
        ensures
            r.figure_type == FigureType::Fort,
            r.color == ChessColor::Black,
            r.current_position == (Square { col: pos.0, row: pos.1 }),
            r.metadata == (FigureMetadata { number_of_moves: 0, is_enpassant_valid: false }),
    {
        Figure::build(FigureType::Fort, ChessColor::Black, pos)
    }

    /// A fresh black knight on `pos` (column, row).
    pub fn build_b_knight(pos: (u8, u8)) -> (r: Figure)
        ensures
            r.figure_type == FigureType::Knight,
            r.color == ChessColor::Black,
            r.current_position == (Square { col: pos.0, row: pos.1 }),
            r.metadata == (FigureMetadata { number_of_moves: 0, is_enpassant_valid: false }),
    {
        Figure::build(FigureType::Knight, ChessColor::Black, pos)
    }

    /// A fresh black bishop on `pos` (column, row).
    pub fn build_b_bishop(pos: (u8, u8)) -> (r: Figure)
        ensures
            r.figure_type == FigureType::Bishop,
            r.color == ChessColor::Black,
            r.current_position == (Square { col: pos.0, row: pos.1 }),
            r.metadata == (FigureMetadata { number_of_moves: 0, is_enpassant_valid: false }),
    {
        Figure::build(FigureType::Bishop, ChessColor::Black, pos)
    }

    /// A fresh black king on `pos` (column, row).
    pub fn build_b_king(pos: (u8, u8)) -> (r: Figure)
        ensures
            r.figure_type == FigureType::King,
            r.color == ChessColor::Black,
            r.current_position == (Square { col: pos.0, row: pos.1 }),
            r.metadata == (FigureMetadata { number_of_moves: 0, is_enpassant_valid: false }),
    {
        Figure::build(FigureType::King, ChessColor::Black, pos)
    }

    /// A fresh black queen on `pos` (column, row).
    pub fn build_b_queen(pos: (u8, u8)) -> (r: Figure)
        ensures
            r.figure_type == FigureType::Queen,
            r.color == ChessColor::Black,
            r.current_position == (Square { col: pos.0, row: pos.1 }),
            r.metadata == (FigureMetadata { number_of_moves: 0, is_enpassant_valid: false }),
    {
        Figure::build(FigureType::Queen, ChessColor::Black, pos)
    }

    /// A fresh white pawn on `pos` (column, row).
    pub fn build_w_pawn(pos: (u8, u8)) -> (r: Figure)
        ensures
            r.figure_type == FigureType::Pawn,
            r.color == ChessColor::White,
            r.current_position == (Square { col: pos.0, row: pos.1 }),
            r.metadata == (FigureMetadata { number_of_moves: 0, is_enpassant_valid: false }),
    {
        Figure::build(FigureType::Pawn, ChessColor::White, pos)
    }

    /// A fresh white fort on `pos` (column, row).
    pub fn build_w_fort(pos: (u8, u8)) -> (r: Figure)
        ensures
            r.figure_type == FigureType::Fort,
            r.color == ChessColor::White,
            r.current_position == (Square { col: pos.0, row: pos.1 }),
            r.metadata == (FigureMetadata { number_of_moves: 0, is_enpassant_valid: false }),
    {
        Figure::build(FigureType::Fort, ChessColor::White, pos)
    }

    /// A fresh white knight on `pos` (column, row).
    pub fn build_w_knight(pos: (u8, u8)) -> (r: Figure)
        ensures
            r.figure_type == FigureType::Knight,
            r.color == ChessColor::White,
            r.current_position == (Square { col: pos.0, row: pos.1 }),
            r.metadata == (FigureMetadata { number_of_moves: 0, is_enpassant_valid: false }),
    {
        Figure::build(FigureType::Knight, ChessColor::White, pos)
    }

    /// A fresh white bishop on `pos` (column, row).
    pub fn build_w_bishop(pos: (u8, u8)) -> (r: Figure)
        ensures
            r.figure_type == FigureType::Bishop,
            r.color == ChessColor::White,
            r.current_position == (Square { col: pos.0, row: pos.1 }),
            r.metadata == (FigureMetadata { number_of_moves: 0, is_enpassant_valid: false }),
    {
        Figure::build(FigureType::Bishop, ChessColor::White, pos)
    }

    /// A fresh white king on `pos` (column, row).
    pub fn build_w_king(pos: (u8, u8)) -> (r: Figure)
        ensures
            r.figure_type == FigureType::King,
            r.color == ChessColor::White,
            r.current_position == (Square { col: pos.0, row: pos.1 }),
            r.metadata == (FigureMetadata { number_of_moves: 0, is_enpassant_valid: false }),
    {
        Figure::build(FigureType::King, ChessColor::White, pos)
    }

    /// A fresh white queen on `pos` (column, row).
    pub fn build_w_queen(pos: (u8, u8)) -> (r: Figure)
        ensures
            r.figure_type == FigureType::Queen,
            r.color == ChessColor::White,
            r.current_position == (Square { col: pos.0, row: pos.1 }),
            r.metadata == (FigureMetadata { number_of_moves: 0, is_enpassant_valid: false }),
    {
        Figure::build(FigureType::Queen, ChessColor::White, pos)
    }
}

/// A board square together with the colour it is drawn in.
#[derive(Debug, Clone, Copy, PartialEq, Eq, Structural)]
pub struct ChessTile {
    pub color: ChessColor,
    pub col: u8,
    pub row: u8,
}

impl ChessTile {
    fn build(color: ChessColor, col: u8, row: u8) -> (r: ChessTile)
        ensures
            r == (ChessTile { color, col, row }),
    {
        ChessTile { color, col, row }
    }

    pub fn build_white(col: u8, row: u8) -> (r: ChessTile)
        ensures
            r == (ChessTile { color: ChessColor::White, col, row }),
    {
        ChessTile::build(ChessColor::White, col, row)
    }

    pub fn build_black(col: u8, row: u8) -> (r: ChessTile)
        ensures
            r == (ChessTile { color: ChessColor::Black, col, row }),
    {
        ChessTile::build(ChessColor::Black, col, row)
    }

    /// The tile of column `col`, row `row`: dark where the coordinates sum
    /// to an even number, light elsewhere, so the corner (0, 0) is dark.
    pub fn of_square(col: u8, row: u8) -> (r: ChessTile)
        ensures
            r.col == col,
            r.row == row,
            r.color == if (col + row) % 2 == 0 {
                ChessColor::Black
            } else {
                ChessColor::White
            },
    {
        if (col % 2) == (row % 2) {
            ChessTile::build_black(col, row)
        } else {
            ChessTile::build_white(col, row)
        }
    }
}

} // verus!
