use vstd::prelude::*;
use vstd::pervasive::VecAdditionalExecFns;
use vstd::arithmetic::div_mod::lemma_fundamental_div_mod_converse_div;
use vstd::arithmetic::div_mod::lemma_fundamental_div_mod_converse_mod;
use vstd::arithmetic::div_mod::lemma_multiply_divide_lt;

use crate::rng::mine_at;
use crate::rng::pcg_state_at;
use crate::rng::rng_draw;
use crate::rng::rng_seed_state;

verus! {

/// Room for the largest board the engine supports: fifteen by fifteen tiles.
pub const BOARD_CAPACITY: usize = 225;

/// Largest number of tiles along either axis of a board.
pub const MAX_DIMENSION: u16 = 15;

/// Edge length of one tile, in pixels.
pub const TILE_PIXEL_SIZE: u32 = 32;

/// Pixel coordinates of the point the board is centered on.
pub const BOARD_CENTER_X: i32 = 475;

/// Pixel coordinates of the point the board is centered on.
pub const BOARD_CENTER_Y: i32 = 250;

/// The annotation a player can put on a tile, cycled by secondary clicks in
/// the fixed order clear, flagged, questioned, and around again.
#[derive(Clone, Copy, Debug, PartialEq, Eq, Structural)]
pub enum FlagMarker {
    Clear,
    Flagged,
    Questioned,
}

impl FlagMarker {
    /// The marker one step further along the three-step cycle.
    pub open spec fn next_spec(self) -> FlagMarker {
        match self {
            FlagMarker::Clear => FlagMarker::Flagged,
            FlagMarker::Flagged => FlagMarker::Questioned,
            FlagMarker::Questioned => FlagMarker::Clear,
        }
    }

    /// Advance the marker one step along the cycle.
    pub fn next(self) -> (r: FlagMarker)
        ensures
            r == self.next_spec(),
    {
        match self {
            FlagMarker::Clear => FlagMarker::Flagged,
            FlagMarker::Flagged => FlagMarker::Questioned,
            FlagMarker::Questioned => FlagMarker::Clear,
        }
    }
}

/// Why a requested board configuration was rejected.
#[derive(Clone, Copy, Debug, PartialEq, Eq, Structural)]
pub enum ConfigurationError {
    /// A side length lies outside `1..=15`, so the grid would not fit the
    /// fixed cell storage.
    DimensionsOutOfRange,
    /// The mine density denominator is zero, so no draw could be made.
    DenominatorZero,
}

/// The mathematical content of a board: its configuration, its pixel
/// geometry, its outcome flags, and the four parallel cell sequences.
#[verifier::ext_equal]
pub ghost struct BoardModel {
    pub width: int,
    pub height: int,
    pub crab_ratio: int,
    pub tile_size: int,
    pub px_left: int,
    pub px_top: int,
    pub game_over: bool,
    pub win: bool,
    pub mines: Seq<bool>,
    pub unc: Seq<bool>,
    pub adj: Seq<u8>,
    pub marks: Seq<FlagMarker>,
}

impl BoardModel {
    /// Number of cells the grid actually uses.
    pub open spec fn size(self) -> int {
        self.width * self.height
    }

    /// Bounds under which every engine operation is defined: dimensions in
    /// range, a usable denominator, sane pixel geometry, and cell storage of
    /// the fixed capacity.
    pub open spec fn wf(self) -> bool {
        &&& 1 <= self.width <= MAX_DIMENSION
        &&& 1 <= self.height <= MAX_DIMENSION
        &&& 1 <= self.crab_ratio <= u16::MAX
        &&& 1 <= self.tile_size <= 4096
        &&& -200000 <= self.px_left <= 200000
        &&& -200000 <= self.px_top <= 200000
        &&& self.mines.len() == BOARD_CAPACITY
        &&& self.unc.len() == BOARD_CAPACITY
        &&& self.adj.len() == BOARD_CAPACITY
        &&& self.marks.len() == BOARD_CAPACITY
    }
}

/// The grid of cells together with mine placement, adjacency counts, player
/// markers, outcome flags, and the pixel rectangle the board is drawn in.
/// Cells are addressed by `row * width + column`.
#[derive(Debug)]
pub struct GameBoard {
    pub width: u16,
    pub height: u16,
    pub crab_ratio: u16,
    pub tile_size: u32,
    pub px_left: i32,
    pub px_top: i32,
    pub game_over: bool,
    pub win: bool,
    pub is_uncovered: Vec<bool>,
    pub is_crab: Vec<bool>,
    pub adjacency: Vec<u8>,
    pub flag_marker: Vec<FlagMarker>,
}

impl View for GameBoard {
    type V = BoardModel;

    open spec fn view(&self) -> BoardModel {
        BoardModel {
            width: self.width as int,
            height: self.height as int,
            crab_ratio: self.crab_ratio as int,
            tile_size: self.tile_size as int,
            px_left: self.px_left as int,
            px_top: self.px_top as int,
            game_over: self.game_over,
            win: self.win,
            mines: self.is_crab@,
            unc: self.is_uncovered@,
            adj: self.adjacency@,
            marks: self.flag_marker@,
        }
    }
}

/// Whether a requested configuration is accepted: side lengths within the
/// fixed capacity and a denominator at least one.  Accepted boards hold at
/// most `15 * 15 == 225` cells.
pub open spec fn config_ok(width: u16, height: u16, crab_ratio: u16) -> bool {
    &&& 1 <= width <= MAX_DIMENSION
    &&& 1 <= height <= MAX_DIMENSION
    &&& 1 <= crab_ratio
}

/// One when the cell at column `x`, row `y` exists and holds a mine, else
/// zero.
pub open spec fn mine_ind(mines: Seq<bool>, w: int, h: int, x: int, y: int) -> int {
    if 0 <= x < w && 0 <= y < h && mines[y * w + x] {
        1int
    } else {
        0int
    }
}

/// The exact number of mines among the up-to-eight Moore neighbors of cell
/// `i`, with neighbors outside the grid counting zero.
pub open spec fn neighbor_mine_count(mines: Seq<bool>, w: int, h: int, i: int) -> int {
    let x = i % w;
    let y = i / w;
    mine_ind(mines, w, h, x - 1, y - 1) + mine_ind(mines, w, h, x, y - 1) + mine_ind(
        mines,
        w,
        h,
        x + 1,
        y - 1,
    ) + mine_ind(mines, w, h, x + 1, y) + mine_ind(mines, w, h, x + 1, y + 1) + mine_ind(
        mines,
        w,
        h,
        x,
        y + 1,
    ) + mine_ind(mines, w, h, x - 1, y + 1) + mine_ind(mines, w, h, x - 1, y)
}

/// The mine layout drawn for a board of `size` cells with denominator
/// `bound` from a generator seeded with `seed`; cells past `size` stay free.
pub open spec fn generated_mines(seed: u64, bound: u32, size: int) -> Seq<bool> {
    Seq::new(BOARD_CAPACITY as nat, |k: int| 0 <= k < size && mine_at(seed, bound, k as nat))
}

/// The adjacency counts that belong to a mine layout; cells past the grid
/// count zero.
pub open spec fn generated_adj(mines: Seq<bool>, w: int, h: int) -> Seq<u8> {
    Seq::new(
        BOARD_CAPACITY as nat,
        |i: int|
            if 0 <= i < w * h {
                neighbor_mine_count(mines, w, h, i) as u8
            } else {
                0u8
            },
    )
}

/// The top or left pixel edge of a board of `count` tiles centered on
/// `center`.
pub open spec fn offset_for(center: int, count: int, tile: int) -> int {
    center - (count * tile) / 2
}

/// The tile under a pixel point: for points inside the board's rectangle,
/// the cell whose tile contains the point; nothing for points outside.
pub open spec fn spec_tile_hit(m: BoardModel, x: int, y: int) -> Option<int> {
    if m.px_left <= x < m.px_left + m.width * m.tile_size && m.px_top <= y < m.px_top + m.height
        * m.tile_size {
        Some(((y - m.px_top) / m.tile_size) * m.width + (x - m.px_left) / m.tile_size)
    } else {
        None
    }
}

/// The board a generation run with the given configuration and seed
/// produces: the drawn mine layout, its adjacency counts, every cell
/// covered, no markers, and the game open.
pub open spec fn generated_model(width: u16, height: u16, crab_ratio: u16, seed: u64) -> BoardModel {
    BoardModel {
        width: width as int,
        height: height as int,
        crab_ratio: crab_ratio as int,
        tile_size: TILE_PIXEL_SIZE as int,
        px_left: offset_for(BOARD_CENTER_X as int, width as int, TILE_PIXEL_SIZE as int),
        px_top: offset_for(BOARD_CENTER_Y as int, height as int, TILE_PIXEL_SIZE as int),
        game_over: false,
        win: false,
        mines: generated_mines(seed, crab_ratio as u32, width as int * height as int),
        unc: Seq::new(BOARD_CAPACITY as nat, |k: int| false),
        adj: generated_adj(
            generated_mines(seed, crab_ratio as u32, width as int * height as int),
            width as int,
            height as int,
        ),
        marks: Seq::new(BOARD_CAPACITY as nat, |k: int| FlagMarker::Clear),
    }
}

/// The board that an explicitly laid-out mine arrangement yields: the given
/// layout padded to the fixed capacity, its adjacency counts, every cell
/// covered, no markers, and the game open.
pub open spec fn laid_out_model(width: u16, height: u16, crab_ratio: u16, mines: Seq<bool>) -> BoardModel {
    BoardModel {
        width: width as int,
        height: height as int,
        crab_ratio: crab_ratio as int,
        tile_size: TILE_PIXEL_SIZE as int,
        px_left: offset_for(BOARD_CENTER_X as int, width as int, TILE_PIXEL_SIZE as int),
        px_top: offset_for(BOARD_CENTER_Y as int, height as int, TILE_PIXEL_SIZE as int),
        game_over: false,
        win: false,
        mines: Seq::new(BOARD_CAPACITY as nat, |k: int| 0 <= k < width as int * height as int && mines[k]),
        unc: Seq::new(BOARD_CAPACITY as nat, |k: int| false),
        adj: generated_adj(
            Seq::new(BOARD_CAPACITY as nat, |k: int| 0 <= k < width as int * height as int && mines[k]),
            width as int,
            height as int,
        ),
        marks: Seq::new(BOARD_CAPACITY as nat, |k: int| FlagMarker::Clear),
    }
}

/// The whole board is judged cell by cell: won exactly when every safe
/// cell is uncovered and every mine is still covered.
pub open spec fn spec_won(m: BoardModel) -> bool {
    forall|i: int| 0 <= i < m.size() ==> m.unc[i] != m.mines[i]
}

/// The board after one win evaluation: both outcome flags set the first time
/// the winning condition is observed, everything else untouched.
pub open spec fn win_step(m: BoardModel) -> BoardModel {
    if spec_won(m) {
        BoardModel { game_over: true, win: true, ..m }
    } else {
        m
    }
}

/// The board after one marker cycle on `index`: that marker one step along
/// the cycle, everything else untouched; out-of-range indices do nothing.
pub open spec fn cycle_step(m: BoardModel, index: int) -> BoardModel {
    if 0 <= index < m.size() {
        BoardModel { marks: m.marks.update(index, m.marks[index].next_spec()), ..m }
    } else {
        m
    }
}

/// How many of the first `n` cells hold a mine.
pub open spec fn count_mines(mines: Seq<bool>, n: int) -> int
    decreases n,
{
    if n <= 0 {
        0
    } else {
        count_mines(mines, n - 1) + if mines[n - 1] {
            1int
        } else {
            0int
        }
    }
}

/// How many of the first `n` markers are flags.
pub open spec fn count_flags(marks: Seq<FlagMarker>, n: int) -> int
    decreases n,
{
    if n <= 0 {
        0
    } else {
        count_flags(marks, n - 1) + if marks[n - 1] == FlagMarker::Flagged {
            1int
        } else {
            0int
        }
    }
}

/// A well-formed board uses between one cell and the whole fixed capacity.
pub proof fn lemma_size_bound(m: BoardModel)
    requires
        m.wf(),
    ensures
        1 <= m.size() <= BOARD_CAPACITY,
{
    assert(1 <= m.width * m.height <= 225) by (nonlinear_arith)
        requires
            1 <= m.width <= 15,
            1 <= m.height <= 15,
    ;
}

/// Build a vector of `n` copies of `value`.
pub(crate) fn filled<T: Copy>(n: usize, value: T) -> (r: Vec<T>)
    ensures
        r@.len() == n,
        forall|i: int| 0 <= i < n ==> r@[i] == value,
{
    let mut r: Vec<T> = Vec::new();
    let mut i: usize = 0;
    while i < n
        invariant
            i <= n,
            r@.len() == i,
            forall|k: int| 0 <= k < i ==> r@[k] == value,
        decreases n - i,
    {
        r.push(value);
        i += 1;
    }
    r
}

impl GameBoard {
    /// Bounds under which every engine operation is defined.
    pub open spec fn wf(self) -> bool {
        self@.wf()
    }

    /// The pixel position of the top-left corner of a board of
    /// `width x height` tiles of `tile_size` pixels centered on
    /// `(center_x, center_y)`.
    pub fn get_offset(center_x: i32, center_y: i32, width: u16, height: u16, tile_size: u32) -> (r:
        (i32, i32))
        requires
            width <= MAX_DIMENSION,
            height <= MAX_DIMENSION,
            1 <= tile_size <= 4096,
            -100000 <= center_x <= 100000,
            -100000 <= center_y <= 100000,
        ensures
            r.0 == offset_for(center_x as int, width as int, tile_size as int),
            r.1 == offset_for(center_y as int, height as int, tile_size as int),
            -200000 <= r.0 <= 200000,
            -200000 <= r.1 <= 200000,
    {
        proof {
            assert(0 <= width as int * tile_size as int <= 61440) by (nonlinear_arith)
                requires
                    width as int <= 15,
                    1 <= tile_size as int <= 4096,
            ;
            assert(0 <= height as int * tile_size as int <= 61440) by (nonlinear_arith)
                requires
                    height as int <= 15,
                    1 <= tile_size as int <= 4096,
            ;
        }
        let px_width: i32 = (width as i32) * (tile_size as i32);
        let px_height: i32 = (height as i32) * (tile_size as i32);
        (center_x - px_width / 2, center_y - px_height / 2)
    }

    /// The starting board every session opens with: ten by ten tiles at a
    /// mine density of one in ten, drawn from the given seed.
    pub fn default(seed: u64) -> (r: GameBoard)
        ensures
            r.wf(),
            r@ =~= generated_model(10, 10, 10, seed),
    {
        match GameBoard::new(10, 10, 10, seed) {
            Ok(board) => board,
            Err(_) => {
                proof {
                    assert(false);
                }
                GameBoard {
                    width: 1,
                    height: 1,
                    crab_ratio: 1,
                    tile_size: TILE_PIXEL_SIZE,
                    px_left: 0,
                    px_top: 0,
                    game_over: false,
                    win: false,
                    is_uncovered: filled(BOARD_CAPACITY, false),
                    is_crab: filled(BOARD_CAPACITY, false),
                    adjacency: filled(BOARD_CAPACITY, 0u8),
                    flag_marker: filled(BOARD_CAPACITY, FlagMarker::Clear),
                }
            },
        }
    }

    /// Generate a fresh board: reject configurations that do not fit the
    /// fixed cell storage or that name a zero denominator; otherwise draw
    /// one bounded random number per cell (a mine exactly on a zero draw),
    /// count every cell's mine neighbors, and start with everything covered.
    pub fn new(width: u16, height: u16, crab_ratio: u16, seed: u64) -> (r: Result<
        GameBoard,
        ConfigurationError,
    >)
        ensures
            config_ok(width, height, crab_ratio) ==> r is Ok,
            r is Ok ==> config_ok(width, height, crab_ratio) && r->Ok_0@ =~= generated_model(
                width,
                height,
                crab_ratio,
                seed,
            ) && r->Ok_0.wf(),
            !(1 <= width <= MAX_DIMENSION && 1 <= height <= MAX_DIMENSION) ==> r == Result::<
                GameBoard,
                ConfigurationError,
            >::Err(ConfigurationError::DimensionsOutOfRange),
            (1 <= width <= MAX_DIMENSION && 1 <= height <= MAX_DIMENSION && crab_ratio == 0)
                ==> r == Result::<GameBoard, ConfigurationError>::Err(
                ConfigurationError::DenominatorZero,
            ),
    {
        if width < 1 || width > MAX_DIMENSION || height < 1 || height > MAX_DIMENSION {
            return Err(ConfigurationError::DimensionsOutOfRange);
        }
        if crab_ratio == 0 {
            return Err(ConfigurationError::DenominatorZero);
        }
        let (px_left, px_top) = Self::get_offset(
            BOARD_CENTER_X,
            BOARD_CENTER_Y,
            width,
            height,
            TILE_PIXEL_SIZE,
        );
        let mut board = GameBoard {
            width,
            height,
            crab_ratio,
            tile_size: TILE_PIXEL_SIZE,
            px_left,
            px_top,
            game_over: false,
            win: false,
            is_uncovered: filled(BOARD_CAPACITY, false),
            is_crab: filled(BOARD_CAPACITY, false),
            adjacency: filled(BOARD_CAPACITY, 0u8),
            flag_marker: filled(BOARD_CAPACITY, FlagMarker::Clear),
        };
        board.init(seed);
        proof {
            assert(board@ =~= generated_model(width, height, crab_ratio, seed));
        }
        Ok(board)
    }

    /// Draw the mine layout and fill in the adjacency counts.  Runs on the
    /// freshly built, all-covered board.
    fn init(&mut self, seed: u64)
        requires
            old(self).wf(),
            forall|k: int| 0 <= k < BOARD_CAPACITY ==> old(self).is_crab@[k] == false,
            forall|k: int| 0 <= k < BOARD_CAPACITY ==> old(self).adjacency@[k] == 0u8,
        ensures
            final(self).width == old(self).width,
            final(self).height == old(self).height,
            final(self).crab_ratio == old(self).crab_ratio,
            final(self).tile_size == old(self).tile_size,
            final(self).px_left == old(self).px_left,
            final(self).px_top == old(self).px_top,
            final(self).game_over == old(self).game_over,
            final(self).win == old(self).win,
            final(self).is_uncovered@ == old(self).is_uncovered@,
            final(self).flag_marker@ == old(self).flag_marker@,
            final(self).is_crab@ =~= generated_mines(
                seed,
                old(self).crab_ratio as u32,
                old(self)@.size(),
            ),
            final(self).adjacency@ =~= generated_adj(
                final(self).is_crab@,
                old(self)@.width,
                old(self)@.height,
            ),
            final(self).wf(),
    {
        proof {
            lemma_size_bound(self@);
        }
        let size: usize = (self.width as usize) * (self.height as usize);
        let bound: u32 = self.crab_ratio as u32;
        let ghost seed_spec: u64 = seed;
        let st = rng_seed_state(seed);
        let mut s0: u64 = st.0;
        let mut s1: u64 = st.1;
        let mut i: usize = 0;
        while i < size
            invariant
                self.wf(),
                i <= size,
                size == self@.size(),
                size <= BOARD_CAPACITY,
                bound == self.crab_ratio as u32,
                1 <= bound,
                (s0, s1) == pcg_state_at(seed_spec, bound, i as nat),
                s1 % 2 == 1,
                forall|k: int|
                    0 <= k < i ==> self.is_crab@[k] == mine_at(seed_spec, bound, k as nat),
                forall|k: int| i <= k < BOARD_CAPACITY ==> self.is_crab@[k] == false,
                self.width == old(self).width,
                self.height == old(self).height,
                self.crab_ratio == old(self).crab_ratio,
                self.tile_size == old(self).tile_size,
                self.px_left == old(self).px_left,
                self.px_top == old(self).px_top,
                self.game_over == old(self).game_over,
                self.win == old(self).win,
                self.is_uncovered == old(self).is_uncovered,
                self.flag_marker == old(self).flag_marker,
                self.adjacency == old(self).adjacency,
            decreases size - i,
        {
            let draw = rng_draw(s0, s1, bound);
            self.is_crab.set(i, draw.0 == 0);
            s0 = draw.1;
            s1 = draw.2;
            i += 1;
        }
        proof {
            assert(self.is_crab@ =~= generated_mines(seed_spec, bound, self@.size()));
        }
        self.fill_adjacency();
    }

    /// Count every cell's mine neighbors and store the counts.  Runs on a
    /// board whose counts are still all zero.
    fn fill_adjacency(&mut self)
        requires
            old(self).wf(),
            forall|k: int| 0 <= k < BOARD_CAPACITY ==> old(self).adjacency@[k] == 0u8,
        ensures
            final(self).width == old(self).width,
            final(self).height == old(self).height,
            final(self).crab_ratio == old(self).crab_ratio,
            final(self).tile_size == old(self).tile_size,
            final(self).px_left == old(self).px_left,
            final(self).px_top == old(self).px_top,
            final(self).game_over == old(self).game_over,
            final(self).win == old(self).win,
            final(self).is_uncovered@ == old(self).is_uncovered@,
            final(self).flag_marker@ == old(self).flag_marker@,
            final(self).is_crab@ == old(self).is_crab@,
            final(self).adjacency@ =~= generated_adj(
                old(self).is_crab@,
                old(self)@.width,
                old(self)@.height,
            ),
            final(self).wf(),
    {
        proof {
            lemma_size_bound(self@);
        }
        let size: usize = (self.width as usize) * (self.height as usize);
        let ghost mines: Seq<bool> = self.is_crab@;
        let mut j: usize = 0;
        while j < size
            invariant
                self.wf(),
                j <= size,
                size == self@.size(),
                size <= BOARD_CAPACITY,
                self.is_crab@ == mines,
                forall|k: int|
                    0 <= k < j ==> self.adjacency@[k] == neighbor_mine_count(
                        mines,
                        self@.width,
                        self@.height,
                        k,
                    ) as u8,
                forall|k: int| j <= k < BOARD_CAPACITY ==> self.adjacency@[k] == 0u8,
                self.width == old(self).width,
                self.height == old(self).height,
                self.crab_ratio == old(self).crab_ratio,
                self.tile_size == old(self).tile_size,
                self.px_left == old(self).px_left,
                self.px_top == old(self).px_top,
                self.game_over == old(self).game_over,
                self.win == old(self).win,
                self.is_uncovered == old(self).is_uncovered,
                self.flag_marker == old(self).flag_marker,
            decreases size - j,
        {
            let count = self.count_neighbors(j);
            self.adjacency.set(j, count);
            j += 1;
        }
        proof {
            assert(self.adjacency@ =~= generated_adj(mines, self@.width, self@.height));
        }
    }

    /// Build a board with an explicitly given mine layout: every cell
    /// covered, no markers, the game open, and the adjacency counts
    /// computed from the layout.  The deterministic counterpart of `new`
    /// for callers that already know where the mines lie.
    pub fn from_mine_layout(width: u16, height: u16, crab_ratio: u16, mines: &Vec<bool>) -> (r:
        Result<GameBoard, ConfigurationError>)
        requires
            mines@.len() == width as int * height as int,
        ensures
            config_ok(width, height, crab_ratio) <==> r is Ok,
            r is Ok ==> r->Ok_0.wf() && r->Ok_0@ =~= laid_out_model(
                width,
                height,
                crab_ratio,
                mines@,
            ),
            !(1 <= width <= MAX_DIMENSION && 1 <= height <= MAX_DIMENSION) ==> r == Result::<
                GameBoard,
                ConfigurationError,
            >::Err(ConfigurationError::DimensionsOutOfRange),
            (1 <= width <= MAX_DIMENSION && 1 <= height <= MAX_DIMENSION && crab_ratio == 0)
                ==> r == Result::<GameBoard, ConfigurationError>::Err(
                ConfigurationError::DenominatorZero,
            ),
    {
        if width < 1 || width > MAX_DIMENSION || height < 1 || height > MAX_DIMENSION {
            return Err(ConfigurationError::DimensionsOutOfRange);
        }
        if crab_ratio == 0 {
            return Err(ConfigurationError::DenominatorZero);
        }
        let (px_left, px_top) = Self::get_offset(
            BOARD_CENTER_X,
            BOARD_CENTER_Y,
            width,
            height,
            TILE_PIXEL_SIZE,
        );
        let mut board = GameBoard {
            width,
            height,
            crab_ratio,
            tile_size: TILE_PIXEL_SIZE,
            px_left,
            px_top,
            game_over: false,
            win: false,
            is_uncovered: filled(BOARD_CAPACITY, false),
            is_crab: filled(BOARD_CAPACITY, false),
            adjacency: filled(BOARD_CAPACITY, 0u8),
            flag_marker: filled(BOARD_CAPACITY, FlagMarker::Clear),
        };
        proof {
            lemma_size_bound(board@);
        }
        let size: usize = (board.width as usize) * (board.height as usize);
        let mut i: usize = 0;
        while i < size
            invariant
                board.wf(),
                i <= size,
                size == board@.size(),
                size <= BOARD_CAPACITY,
                mines@.len() == size,
                board.width == width,
                board.height == height,
                board.crab_ratio == crab_ratio,
                board.tile_size == TILE_PIXEL_SIZE,
                board.px_left == px_left,
                board.px_top == px_top,
                board.game_over == false,
                board.win == false,
                forall|k: int| 0 <= k < BOARD_CAPACITY ==> board.is_uncovered@[k] == false,
                forall|k: int| 0 <= k < BOARD_CAPACITY ==> board.adjacency@[k] == 0u8,
                forall|k: int| 0 <= k < BOARD_CAPACITY ==> board.flag_marker@[k]
                    == FlagMarker::Clear,
                forall|k: int| 0 <= k < i ==> board.is_crab@[k] == mines@[k],
                forall|k: int| i <= k < BOARD_CAPACITY ==> board.is_crab@[k] == false,
            decreases size - i,
        {
            board.is_crab.set(i, mines[i]);
            i += 1;
        }
        proof {
            assert(board.is_crab@ =~= Seq::new(
                BOARD_CAPACITY as nat,
                |k: int| 0 <= k < width as int * height as int && mines@[k],
            ));
        }
        board.fill_adjacency();
        proof {
            assert(board@ =~= laid_out_model(width, height, crab_ratio, mines@));
        }
        Ok(board)
    }

    /// Count the mine neighbors of cell `i` by probing the up-to-eight
    /// surrounding cells, bounded at the grid edges.
    fn count_neighbors(&self, i: usize) -> (count: u8)
        requires
            self.wf(),
            i < self@.size(),
        ensures
            count as int == neighbor_mine_count(self@.mines, self@.width, self@.height, i as int),
    {
        proof {
            lemma_size_bound(self@);
        }
        let (x, y) = self.index_to_coordinates(i);
        let right_bounds = self.width - 1;
        let bottom_bounds = self.height - 1;
        let mut count: u8 = 0;
        if x > 0 && y > 0 && self.is_crab[self.coordinates_to_index(x - 1, y - 1)] {
            count += 1;
        }
        if y > 0 && self.is_crab[self.coordinates_to_index(x, y - 1)] {
            count += 1;
        }
        if x < right_bounds && y > 0 && self.is_crab[self.coordinates_to_index(x + 1, y - 1)] {
            count += 1;
        }
        if x < right_bounds && self.is_crab[self.coordinates_to_index(x + 1, y)] {
            count += 1;
        }
        if x < right_bounds && y < bottom_bounds && self.is_crab[self.coordinates_to_index(
            x + 1,
            y + 1,
        )] {
            count += 1;
        }
        if y < bottom_bounds && self.is_crab[self.coordinates_to_index(x, y + 1)] {
            count += 1;
        }
        if x > 0 && y < bottom_bounds && self.is_crab[self.coordinates_to_index(x - 1, y + 1)] {
            count += 1;
        }
        if x > 0 && self.is_crab[self.coordinates_to_index(x - 1, y)] {
            count += 1;
        }
        count
    }

    /// The column and row of the cell at `i`.
    pub fn index_to_coordinates(&self, i: usize) -> (r: (u16, u16))
        requires
            self.wf(),
            i < self@.size(),
        ensures
            r.0 as int == i as int % self@.width,
            r.1 as int == i as int / self@.width,
            r.0 < self.width,
            r.1 < self.height,
    {
        proof {
            lemma_size_bound(self@);
            lemma_multiply_divide_lt(i as int, self@.width, self@.height);
        }
        ((i as u16) % self.width, (i as u16) / self.width)
    }

    /// The cell index of column `x`, row `y`.
    pub fn coordinates_to_index(&self, x: u16, y: u16) -> (r: usize)
        requires
            self.wf(),
            x < self.width,
            y < self.height,
        ensures
            r as int == y as int * self@.width + x as int,
            r < self@.size(),
            r as int % self@.width == x as int,
            r as int / self@.width == y as int,
    {
        proof {
            lemma_size_bound(self@);
            assert(y as int * self@.width <= 210) by (nonlinear_arith)
                requires
                    y as int <= 14,
                    self@.width <= 15,
            ;
            assert(y as int * self@.width + x as int <= self@.height * self@.width - 1) by (nonlinear_arith)
                requires
                    x as int <= self@.width - 1,
                    y as int <= self@.height - 1,
                    self@.width >= 1,
            ;
            assert(self@.height * self@.width == self@.size()) by (nonlinear_arith);
            lemma_fundamental_div_mod_converse_mod(
                y as int * self@.width + x as int,
                self@.width,
                y as int,
                x as int,
            );
            lemma_fundamental_div_mod_converse_div(
                y as int * self@.width + x as int,
                self@.width,
                y as int,
                x as int,
            );
        }
        (y * self.width + x) as usize
    }

    /// The tile the pixel point `(x, y)` falls in: its cell index when the
    /// point lies inside the board's pixel rectangle, nothing otherwise.
    pub fn mouse_input_to_tile_index(&self, mouse_x: i32, mouse_y: i32) -> (r: Option<usize>)
        requires
            self.wf(),
        ensures
            r is Some <==> spec_tile_hit(self@, mouse_x as int, mouse_y as int) is Some,
            r is Some ==> r->0 as int == spec_tile_hit(self@, mouse_x as int, mouse_y as int)->0
                && r->0 < self@.size(),
    {
        proof {
            lemma_size_bound(self@);
            assert(0 <= self@.width * self@.tile_size <= 61440) by (nonlinear_arith)
                requires
                    1 <= self@.width <= 15,
                    1 <= self@.tile_size <= 4096,
            ;
            assert(0 <= self@.height * self@.tile_size <= 61440) by (nonlinear_arith)
                requires
                    1 <= self@.height <= 15,
                    1 <= self@.tile_size <= 4096,
            ;
        }
        let px_width: i32 = (self.width as i32) * (self.tile_size as i32);
        let px_height: i32 = (self.height as i32) * (self.tile_size as i32);
        if mouse_x >= self.px_left && mouse_x < self.px_left + px_width && mouse_y >= self.px_top
            && mouse_y < self.px_top + px_height {
            let rel_x: i32 = mouse_x - self.px_left;
            let rel_y: i32 = mouse_y - self.px_top;
            let tile: i32 = self.tile_size as i32;
            let tx: u16 = (rel_x / tile) as u16;
            let ty: u16 = (rel_y / tile) as u16;
            proof {
                lemma_multiply_divide_lt(rel_x as int, self@.tile_size, self@.width);
                lemma_multiply_divide_lt(rel_y as int, self@.tile_size, self@.height);
                assert(self@.tile_size * self@.width > rel_x as int) by (nonlinear_arith)
                    requires
                        self@.width * self@.tile_size > rel_x as int,
                ;
                assert(self@.tile_size * self@.height > rel_y as int) by (nonlinear_arith)
                    requires
                        self@.height * self@.tile_size > rel_y as int,
                ;
            }
            Some(self.coordinates_to_index(tx, ty))
        } else {
            None
        }
    }

    /// How many cells hold mines.
    pub fn num_crabs(&self) -> (r: u16)
        requires
            self.wf(),
        ensures
            r as int == count_mines(self@.mines, self@.size()),
            r <= 225,
    {
        proof {
            lemma_size_bound(self@);
        }
        let size: usize = (self.width as usize) * (self.height as usize);
        let mut counter: u16 = 0;
        let mut i: usize = 0;
        while i < size
            invariant
                self.wf(),
                i <= size,
                size == self@.size(),
                size <= BOARD_CAPACITY,
                counter as int == count_mines(self@.mines, i as int),
                counter <= i,
            decreases size - i,
        {
            if self.is_crab[i] {
                counter += 1;
            }
            i += 1;
        }
        counter
    }

    /// How many cells the player has flagged.
    pub fn num_flags(&self) -> (r: u16)
        requires
            self.wf(),
        ensures
            r as int == count_flags(self@.marks, self@.size()),
            r <= 225,
    {
        proof {
            lemma_size_bound(self@);
        }
        let size: usize = (self.width as usize) * (self.height as usize);
        let mut counter: u16 = 0;
        let mut i: usize = 0;
        while i < size
            invariant
                self.wf(),
                i <= size,
                size == self@.size(),
                size <= BOARD_CAPACITY,
                counter as int == count_flags(self@.marks, i as int),
                counter <= i,
            decreases size - i,
        {
            if self.flag_marker[i] == FlagMarker::Flagged {
                counter += 1;
            }
            i += 1;
        }
        counter
    }

    /// Evaluate the win condition: true exactly when every safe cell is
    /// uncovered and every mine is still covered.  On first observing a win
    /// both outcome flags are set; they stay until the board is replaced.
    pub fn is_win(&mut self) -> (r: bool)
        requires
            old(self).wf(),
        ensures
            r == spec_won(old(self)@),
            final(self)@ =~= win_step(old(self)@),
            final(self).wf(),
    {
        proof {
            lemma_size_bound(self@);
        }
        let size: usize = (self.width as usize) * (self.height as usize);
        let mut winning = true;
        let mut i: usize = 0;
        while i < size && winning
            invariant
                self.wf(),
                self == old(self),
                i <= size,
                size == self@.size(),
                size <= BOARD_CAPACITY,
                winning == (forall|k: int| 0 <= k < i ==> self@.unc[k] != self@.mines[k]),
            decreases size - i,
        {
            winning = self.is_uncovered[i] ^ self.is_crab[i];
            i += 1;
        }
        if winning {
            self.game_over = true;
            self.win = true;
        }
        proof {
            assert(final(self)@ =~= win_step(old(self)@));
        }
        winning
    }

    /// Advance the marker of the cell at `index` one step along the cycle;
    /// out-of-range indices do nothing.
    pub fn cycle_marker(&mut self, index: usize)
        requires
            old(self).wf(),
        ensures
            final(self)@ =~= cycle_step(old(self)@, index as int),
            final(self).wf(),
    {
        proof {
            lemma_size_bound(self@);
        }
        let size: usize = (self.width as usize) * (self.height as usize);
        if index < size {
            let current = self.flag_marker[index];
            self.flag_marker.set(index, current.next());
        }
    }
}

/// Two generation runs with the same configuration and the same seed lay
/// the same mines and compute the same adjacency counts.
pub proof fn lemma_generation_deterministic(
    a: GameBoard,
    b: GameBoard,
    width: u16,
    height: u16,
    crab_ratio: u16,
    seed: u64,
)
    requires
        a@ =~= generated_model(width, height, crab_ratio, seed),
        b@ =~= generated_model(width, height, crab_ratio, seed),
    ensures
        a@.mines =~= b@.mines,
        a@.adj =~= b@.adj,
        a@ =~= b@,
{
}

/// A generated board's stored count for every cell is the exact number of
/// mine neighbors in its bounded Moore neighborhood, and such a count never
/// exceeds eight.
pub proof fn lemma_adjacency_exact(m: BoardModel, width: u16, height: u16, crab_ratio: u16, seed: u64)
    requires
        config_ok(width, height, crab_ratio),
        m =~= generated_model(width, height, crab_ratio, seed),
    ensures
        forall|i: int|
            0 <= i < m.size() ==> m.adj[i] as int == neighbor_mine_count(
                m.mines,
                m.width,
                m.height,
                i,
            ),
        forall|i: int|
            0 <= i < m.size() ==> 0 <= #[trigger] neighbor_mine_count(m.mines, m.width, m.height, i)
                <= 8,
{
    assert(1 <= m.width * m.height <= 225) by (nonlinear_arith)
        requires
            1 <= m.width <= 15,
            1 <= m.height <= 15,
    ;
    assert forall|i: int| 0 <= i < m.size() implies m.adj[i] as int == neighbor_mine_count(
        m.mines,
        m.width,
        m.height,
        i,
    ) && 0 <= neighbor_mine_count(m.mines, m.width, m.height, i) <= 8 by {
        assert(0 <= neighbor_mine_count(m.mines, m.width, m.height, i) <= 8);
        assert(m.adj[i] == neighbor_mine_count(m.mines, m.width, m.height, i) as u8);
    }
}

/// The set of cells the player has uncovered.
pub open spec fn uncovered_cells(m: BoardModel) -> Set<int> {
    Set::new(|i: int| 0 <= i < m.size() && m.unc[i])
}

/// The set of cells that hold no mine.
pub open spec fn safe_cells(m: BoardModel) -> Set<int> {
    Set::new(|i: int| 0 <= i < m.size() && !m.mines[i])
}

/// The win condition holds exactly when the set of uncovered cells is the
/// set of safe cells.
pub proof fn lemma_won_iff_uncovered_is_safe(m: BoardModel)
    requires
        m.wf(),
    ensures
        spec_won(m) <==> uncovered_cells(m) =~= safe_cells(m),
{
    if spec_won(m) {
        assert(uncovered_cells(m) =~= safe_cells(m));
    }
    if uncovered_cells(m) =~= safe_cells(m) {
        assert forall|i: int| 0 <= i < m.size() implies m.unc[i] != m.mines[i] by {
            assert(uncovered_cells(m).contains(i) == safe_cells(m).contains(i));
        }
    }
}

/// Three marker cycles on the same cell bring the whole board back to where
/// it started.
pub proof fn lemma_marker_cycle_three(m: BoardModel, index: int)
    requires
        m.wf(),
    ensures
        cycle_step(cycle_step(cycle_step(m, index), index), index) =~= m,
{
    lemma_size_bound(m);
    if 0 <= index < m.size() {
        let m3 = cycle_step(cycle_step(cycle_step(m, index), index), index);
        assert(m3.marks =~= m.marks);
    }
}

} // verus!
