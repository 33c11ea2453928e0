//! What the terminal shows of a game: which cell of the board holds what,
//! and where on the terminal the board, the hint below it and the
//! game-over notice go.

use crate::game::Game;
use crate::geometry::Position;
use crate::high_score::best_score;
use crate::model::{GameModel, GameState};
use ratatui::layout::{Constraint, Direction, Layout, Rect};
use vstd::prelude::*;

verus! {

/// The width of the game-over notice, in terminal columns.
pub const NOTICE_WIDTH: u16 = 30;

/// The height of the game-over notice, in terminal rows.
pub const NOTICE_HEIGHT: u16 = 10;

/// A rectangle of terminal cells: its top left corner and its size.
#[derive(Clone, Copy, Debug, PartialEq, Eq, Structural)]
pub struct Area {
    pub x: u16,
    pub y: u16,
    pub width: u16,
    pub height: u16,
}

/// The axis along which an area is cut into parts: side by side or one
/// above the other.
#[derive(Clone, Copy, Debug, PartialEq, Eq, Structural)]
pub enum Axis {
    Horizontal,
    Vertical,
}

/// What a part of an area is asked to measure along the axis.
#[derive(Clone, Copy, Debug, PartialEq, Eq, Structural)]
pub enum Extent {
    /// A share of what the other parts leave, in proportion to its weight
    /// among the parts that fill.
    Fill(u16),
    /// So many columns or rows.
    Length(u16),
}

impl Area {
    /// Whether `inner` lies within this rectangle.
    pub open spec fn encloses(self, inner: Area) -> bool {
        &&& self.x <= inner.x
        &&& inner.x + inner.width <= self.x + self.width
        &&& self.y <= inner.y
        &&& inner.y + inner.height <= self.y + self.height
    }

    /// Where this rectangle starts along `axis`: its first column or its
    /// first row.
    pub open spec fn start(self, axis: Axis) -> int {
        match axis {
            Axis::Horizontal => self.x as int,
            Axis::Vertical => self.y as int,
        }
    }

    /// How long this rectangle is along `axis`: its width or its height.
    pub open spec fn length(self, axis: Axis) -> int {
        match axis {
            Axis::Horizontal => self.width as int,
            Axis::Vertical => self.height as int,
        }
    }

    /// Where this rectangle ends along `axis`: the column or row right
    /// after its last.
    pub open spec fn end(self, axis: Axis) -> int {
        self.start(axis) + self.length(axis)
    }

    /// Whether `rect` is `width` by `height`, or as much of that as this
    /// rectangle has room for, and lies in the middle of it. Along an axis
    /// on which this rectangle reaches beyond the last column or row that
    /// a `u16` counts, only this much is said: `rect` lies within it.
    pub open spec fn centers(self, width: int, height: int, rect: Area) -> bool {
        &&& self.encloses(rect)
        &&& self.x + self.width <= u16::MAX ==> centered_span(
            self.x as int,
            self.width as int,
            width,
            rect.x as int,
            rect.width as int,
        )
        &&& self.y + self.height <= u16::MAX ==> centered_span(
            self.y as int,
            self.height as int,
            height,
            rect.y as int,
            rect.height as int,
        )
    }

    /// Whether `part` is a slice of this rectangle across `axis`: as high
    /// as the rectangle and within its columns, or as wide and within its
    /// rows.
    pub open spec fn sliced(self, axis: Axis, part: Area) -> bool {
        match axis {
            Axis::Horizontal => {
                &&& part.y == self.y
                &&& part.height == self.height
                &&& self.x <= part.x
                &&& part.x + part.width <= self.x + self.width
            },
            Axis::Vertical => {
                &&& part.x == self.x
                &&& part.width == self.width
                &&& self.y <= part.y
                &&& part.y + part.height <= self.y + self.height
            },
        }
    }
}

/// What a cell of the board shows.
#[derive(Clone, Copy, Debug, PartialEq, Eq, Structural)]
pub enum Cell {
    Head,
    Body,
    Food,
    Empty,
}

/// The color a cell is drawn in.
#[derive(Clone, Copy, Debug, PartialEq, Eq, Structural)]
pub enum Tint {
    Green,
    LightGreen,
    Red,
    Plain,
}

/// What the cell `pos` shows: the head wins over the body, the snake over
/// the food.
pub open spec fn cell_kind(game: GameModel, pos: Position) -> Cell {
    if game.snake[0] == pos {
        Cell::Head
    } else if game.snake.contains(pos) {
        Cell::Body
    } else if pos == game.food {
        Cell::Food
    } else {
        Cell::Empty
    }
}

/// The two characters a cell is drawn with.
pub open spec fn glyph_of(cell: Cell) -> Seq<char> {
    match cell {
        Cell::Empty => seq![' ', ' '],
        _ => seq!['●', ' '],
    }
}

/// The color a cell is drawn in.
pub open spec fn tint_of(cell: Cell) -> Tint {
    match cell {
        Cell::Head => Tint::Green,
        Cell::Body => Tint::LightGreen,
        Cell::Food => Tint::Red,
        Cell::Empty => Tint::Plain,
    }
}

impl Cell {
    /// The text a cell is drawn with: every cell takes two columns of the
    /// terminal, so that the board looks square.
    pub fn glyph(self) -> (text: &'static str)
        ensures
            text@ == glyph_of(self),
    {
        proof {
            reveal_strlit("● ");
            reveal_strlit("  ");
        }
        match self {
            Cell::Empty => "  ",
            _ => "● ",
        }
    }

    /// The color a cell is drawn in.
    pub fn tint(self) -> (tint: Tint)
        ensures
            tint == tint_of(self),
    {
        match self {
            Cell::Head => Tint::Green,
            Cell::Body => Tint::LightGreen,
            Cell::Food => Tint::Red,
            Cell::Empty => Tint::Plain,
        }
    }
}

/// What the playing screen shows.
pub struct BoardScene {
    /// Where the board goes, border included.
    pub frame: Area,
    /// The board's cells, row by row from the top, each row from the left.
    pub rows: Vec<Vec<Cell>>,
    /// Where the line naming the keys goes, if the terminal has room.
    pub hint: Option<Area>,
}

/// What the game-over screen shows.
pub struct NoticeScene {
    /// Where the notice goes, border included.
    pub frame: Area,
    /// The final score.
    pub score: u32,
    /// The best score so far, this game counted in.
    pub high_score: u32,
}

/// What the terminal shows.
pub enum Scene {
    Board(BoardScene),
    GameOver(NoticeScene),
}

/// Whether `rows` are the cells of the board of `game`.
pub open spec fn rows_show(rows: Seq<Vec<Cell>>, game: GameModel) -> bool {
    &&& rows.len() == game.height
    &&& forall|y: int| 0 <= y < rows.len() ==> (#[trigger] rows[y])@.len() == game.width
    &&& forall|y: int, x: int|
        0 <= y < game.height && 0 <= x < game.width ==> (#[trigger] rows[y]@[x]) == cell_kind(
            game,
            Position { x: x as i16, y: y as i16 },
        )
}

/// The line below `board` that spans `area` from side to side, if it
/// starts above row `area.height`.
pub open spec fn hint_below(area: Area, board: Area) -> Option<Area> {
    if board.y + board.height < area.height {
        Some(Area { x: area.x, y: (board.y + board.height) as u16, width: area.width, height: 1 })
    } else {
        None
    }
}

/// Whether the stretch of `part_len` from `part_start` is `len` long, or
/// `room` long if that is less, and lies in the middle of the stretch of
/// `room` from `start`: what is left before it and what is left after it
/// differ by one at most.
pub open spec fn centered_span(
    start: int,
    room: int,
    len: int,
    part_start: int,
    part_len: int,
) -> bool {
    &&& part_len == if len < room { len } else { room }
    &&& -1 <= (part_start - start) - (start + room - part_start - part_len) <= 1
}

/// Whether `extents` ask for a part `len` long between two parts that
/// share alike what is left.
pub open spec fn asks_for_middle(extents: Seq<Extent>, len: u16) -> bool {
    extents =~= seq![Extent::Fill(1), Extent::Length(len), Extent::Fill(1)]
}

/// Whether `parts` are three parts that fill `area` along `axis` from end
/// to end, each beginning where the one before it ends, the middle one
/// `len` long and the outer two alike in length, give or take one.
pub open spec fn cut_around_middle(area: Area, axis: Axis, len: int, parts: Seq<Area>) -> bool {
    &&& parts.len() == 3
    &&& parts[0].start(axis) == area.start(axis)
    &&& parts[0].end(axis) == parts[1].start(axis)
    &&& parts[1].length(axis) == len
    &&& parts[1].end(axis) == parts[2].start(axis)
    &&& parts[2].end(axis) == area.end(axis)
    &&& -1 <= parts[0].length(axis) - parts[2].length(axis) <= 1
}

/// Cuts `area` into parts laid out along `axis`, one for each of `extents`
/// and in their order. The call is ratatui's `Layout::new` with the
/// direction and the constraints that `axis` and `extents` stand for, then
/// `Layout::split`.
///
/// Trusted, not proved. Of every cut: there are as many parts as extents,
/// each is a slice of `area` across `axis`, and each ends no later than
/// the next begins. ratatui makes one part for each constraint, gives each
/// part the rows of the area (or its columns, when the parts lie one above
/// the other), and binds its solver to keep the ends of all parts in
/// order and between the two ends of the area.
///
/// Of the one cut that asks for a length between two equal fills, where
/// the length fits into the area and the area ends within what a `u16`
/// counts: the parts fill the area from end to end without a gap, the
/// middle one has the length asked for, and the outer two are alike in
/// length, give or take the one cell that cannot be halved. ratatui's
/// documentation says as much of its constraints and of the layout it
/// makes by default: a length is the size that the part gets, and ranks
/// above a fill; fills take up what is left, in proportion to their
/// weights, while the other constraints are met; the parts are laid out
/// from the start of the area, with no space between them. On which side
/// the odd cell falls is not claimed. ratatui clamps the far end of an
/// area at the last `u16`, which is why areas that reach beyond it are
/// left out.
///
/// What other lists of extents give is left to ratatui's solver, which
/// takes them as wishes only.
#[verifier::external_body]
fn split(axis: Axis, extents: &Vec<Extent>, area: Area) -> (parts: Vec<Area>)
    ensures
        parts@.len() == extents@.len(),
        forall|i: int| 0 <= i < parts@.len() ==> area.sliced(axis, #[trigger] parts@[i]),
        forall|i: int|
            0 <= i < parts@.len() - 1 ==> (#[trigger] parts@[i]).end(axis) <= parts@[i
                + 1].start(axis),
        forall|len: u16|
            #[trigger] asks_for_middle(extents@, len) && len <= area.length(axis) && area.end(axis)
                <= u16::MAX ==> cut_around_middle(area, axis, len as int, parts@),
{
    let direction = match axis {
        Axis::Horizontal => Direction::Horizontal,
        Axis::Vertical => Direction::Vertical,
    };
    let constraints = extents.iter().map(|extent| match extent {
        Extent::Fill(weight) => Constraint::Fill(*weight),
        Extent::Length(length) => Constraint::Length(*length),
    });
    let whole = Rect { x: area.x, y: area.y, width: area.width, height: area.height };
    let parts = Layout::new(direction, constraints).split(whole);
    parts.iter().map(|r| Area { x: r.x, y: r.y, width: r.width, height: r.height }).collect()
}

/// What is asked of the three parts that center a part `len` long in a
/// stretch `room` long: the middle part is to be `len` long, or `room`
/// if that is less, and the two around it are to share alike what is
/// left.
pub open spec fn centering(len: u16, room: u16) -> Seq<Extent> {
    seq![Extent::Fill(1), Extent::Length(if len < room { len } else { room }), Extent::Fill(1)]
}

/// What to ask of the three parts that center a part `len` long in a
/// stretch `room` long.
pub fn centering_extents(len: u16, room: u16) -> (extents: Vec<Extent>)
    ensures
        extents@ == centering(len, room),
        asks_for_middle(extents@, if len < room { len } else { room }),
{
    let middle = if len < room { len } else { room };
    let extents = vec![Extent::Fill(1), Extent::Length(middle), Extent::Fill(1)];
    assert(extents@ =~= centering(len, room));
    extents
}

/// A rectangle `width` by `height` in the middle of `area`, or as much of
/// that size as `area` has room for: the middle one of three columns cut
/// as `centering(width, area.width)` asks, then the middle one of three
/// rows of that column, cut as `centering(height, area.height)` asks.
/// What is left of `area` on either side of it differs by one column at
/// most, and above and below it by one row at most.
pub fn centered_rect(width: u16, height: u16, area: Area) -> (rect: Area)
    ensures
        area.centers(width as int, height as int, rect),
{
    let columns = split(Axis::Horizontal, &centering_extents(width, area.width), area);
    let column = middle_part(&columns);
    assert(area.sliced(Axis::Horizontal, column));

    let rows = split(Axis::Vertical, &centering_extents(height, area.height), column);
    let rect = middle_part(&rows);
    assert(column.sliced(Axis::Vertical, rect));

    rect
}

/// The middle one of three parts that an area was cut into.
pub fn middle_part(parts: &Vec<Area>) -> (middle: Area)
    requires
        parts@.len() == 3,
    ensures
        middle == parts@[1],
{
    parts[1]
}

/// What the cell `pos` of the board shows.
pub fn cell_at(game: &Game, pos: Position) -> (cell: Cell)
    requires
        game@.wf(),
    ensures
        cell == cell_kind(game@, pos),
{
    if game.head() == pos {
        Cell::Head
    } else if game.covers(pos) {
        Cell::Body
    } else if pos == game.food() {
        Cell::Food
    } else {
        Cell::Empty
    }
}

/// The cells of the board, row by row.
pub fn board_rows(game: &Game) -> (rows: Vec<Vec<Cell>>)
    requires
        game@.wf(),
    ensures
        rows_show(rows@, game@),
{
    let width = game.grid_width();
    let height = game.grid_height();
    let mut rows: Vec<Vec<Cell>> = Vec::new();
    let mut y: u16 = 0;
    while y < height
        invariant
            game@.wf(),
            width == game@.width,
            height == game@.height,
            y <= height,
            rows@.len() == y,
            forall|j: int| 0 <= j < y ==> (#[trigger] rows@[j])@.len() == width,
            forall|j: int, i: int|
                0 <= j < y && 0 <= i < width ==> (#[trigger] rows@[j]@[i]) == cell_kind(
                    game@,
                    Position { x: i as i16, y: j as i16 },
                ),
        decreases height - y,
    {
        let mut row: Vec<Cell> = Vec::new();
        let mut x: u16 = 0;
        while x < width
            invariant
                game@.wf(),
                width == game@.width,
                height == game@.height,
                y < height,
                x <= width,
                row@.len() == x,
                forall|i: int|
                    0 <= i < x ==> (#[trigger] row@[i]) == cell_kind(
                        game@,
                        Position { x: i as i16, y: y as i16 },
                    ),
            decreases width - x,
        {
            row.push(cell_at(game, Position { x: x as i16, y: y as i16 }));
            x += 1;
        }
        rows.push(row);
        y += 1;
    }
    rows
}

/// The size of the board on the terminal, border included: two columns
/// for each cell and one for each side, a row for each row of cells and
/// one each for top and bottom.
pub fn board_size(game: &Game) -> (size: (u16, u16))
    requires
        2 * game@.width + 2 <= u16::MAX,
        game@.height + 2 <= u16::MAX,
    ensures
        size.0 == 2 * game@.width + 2,
        size.1 == game@.height + 2,
{
    (game.grid_width() * 2 + 2, game.grid_height() + 2)
}

/// Where the line naming the keys goes: right below the board, from side
/// to side of the terminal. It is left out when it would start at row
/// `area.height` or below.
pub fn hint_area(area: Area, board: Area) -> (hint: Option<Area>)
    requires
        board.y + board.height <= u16::MAX,
    ensures
        hint == hint_below(area, board),
{
    let below = board.y + board.height;
    if below < area.height {
        Some(Area { x: area.x, y: below, width: area.width, height: 1 })
    } else {
        None
    }
}

/// What the playing screen shows on a terminal of size `area`: the board
/// in the middle, as large as `board_size` says or as `area` has room
/// for, its cells, and the hint below it.
pub fn board_scene(game: &Game, area: Area) -> (scene: BoardScene)
    requires
        game@.wf(),
        2 * game@.width + 2 <= u16::MAX,
        area.y + area.height <= u16::MAX,
    ensures
        area.centers(2 * game@.width + 2, game@.height + 2, scene.frame),
        rows_show(scene.rows@, game@),
        scene.hint == hint_below(area, scene.frame),
{
    let (width, height) = board_size(game);
    let frame = centered_rect(width, height, area);
    let rows = board_rows(game);
    let hint = hint_area(area, frame);
    BoardScene { frame, rows, hint }
}

/// What the game-over screen shows on a terminal of size `area`: a notice
/// in the middle, `NOTICE_WIDTH` by `NOTICE_HEIGHT` or as large as `area`
/// has room for, with the final score and the best score, which is the
/// larger of the final score and `high_score`, the best before this game.
pub fn notice_scene(game: &Game, high_score: u32, area: Area) -> (scene: NoticeScene)
    ensures
        area.centers(NOTICE_WIDTH as int, NOTICE_HEIGHT as int, scene.frame),
        scene.score == game@.score,
        scene.high_score == if game@.score > high_score {
            game@.score
        } else {
            high_score as nat
        },
{
    NoticeScene {
        frame: centered_rect(NOTICE_WIDTH, NOTICE_HEIGHT, area),
        score: game.score(),
        high_score: best_score(high_score, game.score()),
    }
}

/// What the terminal shows of `game`: the board while the game runs, the
/// notice once it is over. `high_score` is the best score before this
/// game.
pub fn scene(game: &Game, high_score: u32, area: Area) -> (scene: Scene)
    requires
        game@.wf(),
        game@.state == GameState::Playing ==> 2 * game@.width + 2 <= u16::MAX && area.y
            + area.height <= u16::MAX,
    ensures
        match scene {
            Scene::Board(board) => {
                &&& game@.state == GameState::Playing
                &&& area.centers(2 * game@.width + 2, game@.height + 2, board.frame)
                &&& rows_show(board.rows@, game@)
                &&& board.hint == hint_below(area, board.frame)
            },
            Scene::GameOver(notice) => {
                &&& game@.state == GameState::GameOver
                &&& area.centers(NOTICE_WIDTH as int, NOTICE_HEIGHT as int, notice.frame)
                &&& notice.score == game@.score
                &&& notice.high_score == if game@.score > high_score {
                    game@.score
                } else {
                    high_score as nat
                }
            },
        },
{
    match game.state() {
        GameState::Playing => Scene::Board(board_scene(game, area)),
        GameState::GameOver => Scene::GameOver(notice_scene(game, high_score, area)),
    }
}

} // verus!
