//! The game of Go played on the board, kept by the `goban` crate.

use goban::pieces::stones::Color;
use goban::rules::game::Game;
use goban::rules::game_builder::GameBuilder;
use goban::rules::Move;
use vstd::prelude::*;

verus! {

/// The game type of `goban`: opaque here, it is carried through and changed
/// only through the trusted items of this module.
#[verifier::external_type_specification]
#[verifier::external_body]
pub struct ExGame(goban::rules::game::Game);

/// The stones on the board of a `goban` game: for each point `(x, y)` of the
/// board whose cell (`x * height + y`, as `Goban::get_color((x, y))` reads it)
/// holds a chain, that chain's colour (`true` for black, `false` for white).
pub uninterp spec fn board_stones(game: Game) -> Map<(int, int), bool>;

/// The size `(height, width)` of the board of a `goban` game, as
/// `Game::size` gives it: the size it was built with.
pub uninterp spec fn board_size(game: Game) -> (int, int);

/// Whether black is to play in a `goban` game: its `turn` field, which
/// `Game::turn` gives, is `Color::Black`.
pub uninterp spec fn black_to_play(game: Game) -> bool;

/// The number of stones played into a `goban` game with `Move::Play` since
/// it was built.
pub uninterp spec fn stones_played(game: Game) -> nat;

/// The rules of a `goban` game, as the bits of its `IllegalRules` and of its
/// `ScoreRules` flags (its komi, a floating-point number, is left out).
pub uninterp spec fn rule_flags(game: Game) -> (int, int);

/// The flags of `goban`'s Japanese rules (`goban::rules::JAPANESE`): illegal
/// moves `KO | SUICIDE` (`1 | 4`), scoring `KOMI | PRISONNERS` (`2 | 4`).
pub open spec fn japanese_flags() -> (int, int) {
    (5, 6)
}

/// Whether rules with these flags forbid suicide (`IllegalRules::SUICIDE`,
/// bit `4`).
pub open spec fn forbids_suicide(flags: (int, int)) -> bool {
    (flags.0 / 4) % 2 == 1
}

/// Number of stones that can be played into one `goban` game: each play may
/// take a new chain slot, never reused, and `goban` stores a slot number as a
/// `NonMaxU16`, which fails on slot 65535.
pub const MAX_PLAYS: u32 = 65535;

/// A game of Go together with the size of its board: `height` lines by
/// `width` lines, as the game was built. `count` is the number of stones
/// played, and `played` the record, for the proofs, of the points at which
/// they were played, in order.
pub struct GoGame {
    game: Game,
    height: u8,
    width: u8,
    count: u32,
    played: Ghost<Seq<(int, int)>>,
}

/// Largest side that `goban` handles.
pub const MAX_SIDE: u8 = 19;

/// Builds a `goban` game on a board of `size = (height, width)` under the
/// Japanese rules, by `GameBuilder::default().size(size).rule(JAPANESE).build()`.
///
/// `goban`'s `Goban::new` panics on a side above 19, hence the `requires`;
/// `GameBuilder::build` returns `Ok` in every case (its `build_inner` has no
/// other exit), so the `unwrap` never fails. The builder is given no
/// handicap, no set-up stones, no moves and no komi, so the game has a board
/// of the size asked for (`Goban::new(size)`) with no stone on it, black to
/// play (`build_inner` picks black when there is no handicap), no stone
/// played, and the flags of `JAPANESE`.
#[verifier::external_body]
fn build_game(size: (u8, u8)) -> (game: Game)
    requires
        size.0 <= MAX_SIDE,
        size.1 <= MAX_SIDE,
    ensures
        board_size(game) == (size.0 as int, size.1 as int),
        board_stones(game).dom().is_empty(),
        black_to_play(game),
        stones_played(game) == 0,
        rule_flags(game) == japanese_flags(),
{
    GameBuilder::default().size(size).rule(goban::rules::JAPANESE).build().unwrap()
}

/// Whether `goban`'s `Goban::get_color((x, y))` reports no stone at `(x, y)`.
///
/// The board of a `goban` game is a vector of 361 cells; the point `(x, y)` of
/// a board of height `h` is cell `x * h + y`, inside it for sides of at most
/// 19, so the call does not panic on a point of the board.
#[verifier::external_body]
fn point_is_empty(game: &Game, x: u8, y: u8) -> (empty: bool)
    requires
        board_size(*game).0 <= MAX_SIDE,
        board_size(*game).1 <= MAX_SIDE,
        x < board_size(*game).0,
        y < board_size(*game).1,
    ensures
        empty == !board_stones(*game).contains_key((x as int, y as int)),
{
    game.get_color((x, y)).is_none()
}

/// Plays a stone for the side to play at `(x, y)` with `goban`'s
/// `Game::play(Move::Play(x, y))`.
///
/// `Game::play` panics when the point lies outside the board. It does not
/// check that the point is empty: on an occupied point, `Group::remove_liberty`
/// fails its debug assertion (or the game is corrupted), so the point must be
/// empty. `goban`'s cell arithmetic is consistent on square boards only
/// (`two_to_1dim` strides by the height, `one_to_2dim` divides by the height
/// and takes the remainder by the width): on other boards distinct points share
/// a cell and neighbours are misread, so the board must be square. A play may
/// take a new chain slot, and slot 65535 fails (`MAX_PLAYS`).
///
/// `Game::play` flips the turn, counts one more stone played, and changes
/// neither the board's size nor the rules. It pushes a stone of the side to
/// play at `(x, y)`, then removes enemy chains left without liberties, and the
/// new stone's own chain only where the rules allow suicide. So no point but
/// `(x, y)` gains a stone and no stone changes colour; where suicide is
/// forbidden, `(x, y)` then holds the mover's stone and the mover's stones all
/// stay. Which enemy stones are captured is not stated.
#[verifier::external_body]
fn play_at(game: &mut Game, x: u8, y: u8)
    requires
        board_size(*old(game)).0 == board_size(*old(game)).1,
        board_size(*old(game)).0 <= MAX_SIDE,
        x < board_size(*old(game)).0,
        y < board_size(*old(game)).1,
        !board_stones(*old(game)).contains_key((x as int, y as int)),
        stones_played(*old(game)) < MAX_PLAYS,
    ensures
        board_size(*final(game)) == board_size(*old(game)),
        rule_flags(*final(game)) == rule_flags(*old(game)),
        stones_played(*final(game)) == stones_played(*old(game)) + 1,
        black_to_play(*final(game)) == !black_to_play(*old(game)),
        forall|p: (int, int)|
            #![trigger board_stones(*final(game)).contains_key(p)]
            board_stones(*final(game)).contains_key(p) && p != (x as int, y as int) ==> {
                &&& board_stones(*old(game)).contains_key(p)
                &&& board_stones(*final(game))[p] == board_stones(*old(game))[p]
            },
        forbids_suicide(rule_flags(*old(game))) ==> {
            &&& board_stones(*final(game)).contains_key((x as int, y as int))
            &&& board_stones(*final(game))[(x as int, y as int)] == black_to_play(*old(game))
        },
        forbids_suicide(rule_flags(*old(game))) ==> forall|p: (int, int)|
            #![trigger board_stones(*old(game)).contains_key(p)]
            board_stones(*old(game)).contains_key(p) && board_stones(*old(game))[p]
                == black_to_play(*old(game)) ==> board_stones(*final(game)).contains_key(p),
{
    game.play(Move::Play(x, y));
}

/// Whether black is to play, from `goban`'s `Game::turn`.
#[verifier::external_body]
fn turn_is_black(game: &Game) -> (black: bool)
    ensures
        black == black_to_play(*game),
{
    match game.turn() {
        Color::Black => true,
        Color::White => false,
    }
}

/// The colour, as a canvas style name, that stones of the side to move are
/// drawn in: `"black"` when black is to move, `"white"` otherwise.
pub fn color_name(black_to_move: bool) -> (name: &'static str)
    ensures
        black_to_move ==> name@ == "black"@,
        !black_to_move ==> name@ == "white"@,
{
    if black_to_move {
        "black"
    } else {
        "white"
    }
}

impl GoGame {
    /// The points at which stones were played in this game since it was
    /// built, in order.
    pub closed spec fn moves(&self) -> Seq<(int, int)> {
        self.played@
    }

    /// The `goban` game held.
    pub closed spec fn spec_game(&self) -> Game {
        self.game
    }

    /// The number of lines of the board along the first coordinate.
    pub closed spec fn spec_height(&self) -> nat {
        self.height as nat
    }

    /// The number of lines of the board along the second coordinate.
    pub closed spec fn spec_width(&self) -> nat {
        self.width as nat
    }

    /// The stones on the board: the colour (`true` for black) of each point
    /// that holds a stone.
    pub closed spec fn stones(&self) -> Map<(int, int), bool> {
        board_stones(self.game)
    }

    /// Black is to play.
    pub closed spec fn black_to_move(&self) -> bool {
        black_to_play(self.game)
    }

    /// The game is played under `goban`'s Japanese rules.
    pub closed spec fn japanese_rules(&self) -> bool {
        rule_flags(self.game) == japanese_flags()
    }

    /// What is recorded beside the `goban` game agrees with it: its board
    /// has the recorded size (at most 19 a side), its rules are the Japanese
    /// rules, `count` stones were played into it, at the points `played`
    /// records, and black is to play exactly when that count is even.
    pub closed spec fn wf(&self) -> bool {
        &&& board_size(self.game) == (self.height as int, self.width as int)
        &&& self.height <= MAX_SIDE
        &&& self.width <= MAX_SIDE
        &&& rule_flags(self.game) == japanese_flags()
        &&& stones_played(self.game) == self.count
        &&& self.played@.len() == self.count
        &&& black_to_play(self.game) == (self.count % 2 == 0)
    }

    /// Whether `(x, y)` is a point of the board.
    pub open spec fn on_board(&self, x: int, y: int) -> bool {
        0 <= x < self.spec_height() && 0 <= y < self.spec_width()
    }

    /// What playing at `(x, y)` does to the stones, as far as it is stated:
    /// the point then holds a stone of the side that moved, no other point
    /// gains a stone, no stone changes colour, and the mover's stones stay.
    pub open spec fn stone_placed(old_stones: Map<(int, int), bool>, new_stones: Map<(int, int), bool>, p: (int, int), black: bool) -> bool {
        &&& new_stones.contains_key(p)
        &&& new_stones[p] == black
        &&& forall|q: (int, int)|
            #![trigger new_stones.contains_key(q)]
            new_stones.contains_key(q) && q != p ==> old_stones.contains_key(q) && new_stones[q]
                == old_stones[q]
        &&& forall|q: (int, int)|
            #![trigger old_stones.contains_key(q)]
            old_stones.contains_key(q) && old_stones[q] == black ==> new_stones.contains_key(q)
    }

    /// In a game as built and played through this type, black is to play
    /// exactly when an even number of stones has been played: the turn
    /// alternates, black first.
    pub proof fn lemma_turn_alternates(&self)
        requires
            self.wf(),
        ensures
            self.black_to_move() == (self.moves().len() % 2 == 0),
    {
    }

    /// Starts a game under the Japanese rules on a board of
    /// `bansize = (height, width)`: the board is empty and black is to move.
    pub fn new(bansize: (u32, u32)) -> (g: GoGame)
        requires
            bansize.0 <= MAX_SIDE,
            bansize.1 <= MAX_SIDE,
        ensures
            g.wf(),
            g.spec_height() == bansize.0,
            g.spec_width() == bansize.1,
            board_size(g.spec_game()) == (bansize.0 as int, bansize.1 as int),
            g.japanese_rules(),
            g.moves() == Seq::<(int, int)>::empty(),
            g.stones().dom().is_empty(),
            g.black_to_move(),
    {
        let height = bansize.0 as u8;
        let width = bansize.1 as u8;
        let game = build_game((height, width));
        GoGame { game, height, width, count: 0, played: Ghost(Seq::empty()) }
    }

    /// The number of lines of the board along the first coordinate.
    pub fn height(&self) -> (h: u8)
        ensures
            h == self.spec_height(),
    {
        self.height
    }

    /// The number of lines of the board along the second coordinate.
    pub fn width(&self) -> (w: u8)
        ensures
            w == self.spec_width(),
    {
        self.width
    }

    /// The number of stones played since the game was built.
    pub fn move_count(&self) -> (n: u32)
        requires
            self.wf(),
        ensures
            n == self.moves().len(),
    {
        self.count
    }

    /// The `goban` game, to read from.
    pub fn game(&self) -> (game: &Game)
        ensures
            *game == self.spec_game(),
    {
        &self.game
    }

    /// Whether the point `(xidx, yidx)` of the board holds no stone.
    pub fn is_vacant(&self, xidx: usize, yidx: usize) -> (empty: bool)
        requires
            self.wf(),
            self.on_board(xidx as int, yidx as int),
        ensures
            empty == !self.stones().contains_key((xidx as int, yidx as int)),
    {
        point_is_empty(&self.game, xidx as u8, yidx as u8)
    }

    /// Plays a stone for the side to move at the empty point
    /// `(xidx, yidx)` of a square board: that point then holds a stone of the
    /// side that moved (see [`GoGame::stone_placed`]), it is added to the
    /// points played, the turn passes, and the board keeps its size and rules.
    /// At most `MAX_PLAYS` stones can be played into a game.
    pub fn put_stone(&mut self, xidx: usize, yidx: usize)
        requires
            old(self).wf(),
            old(self).spec_height() == old(self).spec_width(),
            old(self).on_board(xidx as int, yidx as int),
            !old(self).stones().contains_key((xidx as int, yidx as int)),
            old(self).moves().len() < MAX_PLAYS,
        ensures
            final(self).wf(),
            final(self).spec_height() == old(self).spec_height(),
            final(self).spec_width() == old(self).spec_width(),
            board_size(final(self).spec_game()) == board_size(old(self).spec_game()),
            final(self).japanese_rules(),
            final(self).moves() == old(self).moves().push((xidx as int, yidx as int)),
            final(self).black_to_move() == !old(self).black_to_move(),
            Self::stone_placed(
                old(self).stones(),
                final(self).stones(),
                (xidx as int, yidx as int),
                old(self).black_to_move(),
            ),
    {
        play_at(&mut self.game, xidx as u8, yidx as u8);
        self.count = self.count + 1;
        self.played = Ghost(self.played@.push((xidx as int, yidx as int)));
    }

    /// Plays at `(xidx, yidx)` as [`GoGame::put_stone`] does when the board
    /// is square, the point is an empty point of it and fewer than
    /// `MAX_PLAYS` stones have been played, and returns `true`; otherwise
    /// leaves the game as it is and returns `false`.
    pub fn try_put_stone(&mut self, xidx: usize, yidx: usize) -> (played: bool)
        requires
            old(self).wf(),
        ensures
            played == (old(self).spec_height() == old(self).spec_width() && old(self).on_board(
                xidx as int,
                yidx as int,
            ) && !old(self).stones().contains_key((xidx as int, yidx as int)) && old(
                self,
            ).moves().len() < MAX_PLAYS),
            played ==> {
                &&& final(self).wf()
                &&& final(self).spec_height() == old(self).spec_height()
                &&& final(self).spec_width() == old(self).spec_width()
                &&& final(self).moves() == old(self).moves().push((xidx as int, yidx as int))
                &&& final(self).black_to_move() == !old(self).black_to_move()
                &&& Self::stone_placed(
                    old(self).stones(),
                    final(self).stones(),
                    (xidx as int, yidx as int),
                    old(self).black_to_move(),
                )
            },
            !played ==> *final(self) == *old(self),
    {
        if self.height != self.width || xidx >= self.height as usize || yidx >= self.width as usize {
            return false;
        }
        if self.count >= MAX_PLAYS {
            return false;
        }
        if !self.is_vacant(xidx, yidx) {
            return false;
        }
        self.put_stone(xidx, yidx);
        true
    }

    /// The colour, as a canvas style name, of the stone that the side to move
    /// would play: `"black"` when black is to move, `"white"` otherwise.
    pub fn turn_color(&self) -> (name: &'static str)
        ensures
            name@ == (if self.black_to_move() { "black"@ } else { "white"@ }),
    {
        color_name(turn_is_black(&self.game))
    }
}

} // verus!
