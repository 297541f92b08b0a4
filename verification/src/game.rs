//! The movement and placement engine: one game value owns the catalog, the
//! grid, the clocks, the bag and the active piece, and three systems advance
//! it each tick — input, then gravity and placement, then the line-clear
//! timer. While a line clear is in progress the first two systems do
//! nothing.
//!
//! Top-out has no distinct state: a piece that spawns onto occupied cells
//! simply grounds on the next gravity step and is baked over whatever lies
//! beneath, as callers that want a game-over rule can detect themselves.
use vstd::prelude::*;

verus! {

use crate::bag::{PieceBag, next_rel};
use crate::clock::{State, TickTimer, timer_tick_spec, gravity_interval_spec, FRAME_MICROS};
use crate::field::{
    Playfield,
    cells_in_bounds,
    write_cells_spec,
    full_rows_spec,
    collapse_spec,
    occupied_spec,
    empty_grid,
    lemma_full_rows_props,
};
use crate::pieces::{
    Piece,
    PieceType,
    Pieces,
    color_of,
    get_color,
    rotation_states,
    rot_index,
    solid_spec,
    lemma_states_len,
    lemma_catalog_shape_ok,
    shape_ok,
};

/// A discrete input event delivered once per tick. Only one rotation
/// direction is supported.
#[derive(Debug, Clone, Copy, PartialEq, Eq, Structural)]
pub enum InputEvent {
    MoveLeft,
    MoveRight,
    RotateCW,
}

/// How long eliminated rows stay visible before the grid collapses, in
/// microseconds.
pub const CLEAR_DELAY_MICROS: u64 = 500000;

/// A line clear in progress: a one-shot delay timer and the rows to
/// eliminate when it completes. While one exists, input and gravity are
/// suspended.
pub struct LineTransition {
    pub timer: TickTimer,
    pub to_eliminate: Vec<usize>,
}

/// Every row listed for elimination lies inside the grid.
pub open spec fn transition_wf(lt: LineTransition) -> bool {
    forall|k: int| 0 <= k < lt.to_eliminate@.len() ==> (#[trigger] lt.to_eliminate@[k]) < 22
}

/// A placeable piece: canonical rotation index and all four cells inside
/// the grid.
pub open spec fn piece_wf(t: PieceType, p: Piece) -> bool {
    &&& 0 <= p.rot < rotation_states(t).len()
    &&& -3 <= p.x <= 9
    &&& -3 <= p.y <= 21
    &&& cells_in_bounds(solid_spec(t, p))
}

/// The whole game: catalog, grid, clocks, bag, the active piece and an
/// optional line clear in progress.
pub struct Game {
    pub pieces: Pieces,
    pub playfield: Playfield,
    pub state: State,
    pub bag: PieceBag,
    pub active_type: PieceType,
    pub active: Piece,
    pub active_gen: u64,
    pub next_gen: u64,
    pub transition: Option<LineTransition>,
}

/// The game invariant: catalog and bag well formed, the active piece
/// placeable, and any pending elimination rows inside the grid.
pub open spec fn game_wf(g: Game) -> bool {
    &&& g.pieces.wf()
    &&& g.bag.wf()
    &&& piece_wf(g.active_type, g.active)
    &&& match g.transition {
        Some(lt) => transition_wf(lt),
        None => true,
    }
}

/// One event applied to a candidate position: left and right shift the
/// anchor, rotate advances the rotation index, wrapped modulo the state
/// count so the index stays canonical.
pub open spec fn apply_event_spec(t: PieceType, p: Piece, e: InputEvent) -> Piece {
    match e {
        InputEvent::MoveLeft => Piece { x: (p.x - 1) as i32, y: p.y, rot: p.rot },
        InputEvent::MoveRight => Piece { x: (p.x + 1) as i32, y: p.y, rot: p.rot },
        InputEvent::RotateCW => Piece {
            x: p.x,
            y: p.y,
            rot: ((p.rot + 1) % (rotation_states(t).len() as int)) as i32,
        },
    }
}

/// The queued events applied in order.
pub open spec fn apply_events_spec(t: PieceType, p: Piece, events: Seq<InputEvent>) -> Piece
    decreases events.len(),
{
    if events.len() == 0 {
        p
    } else {
        apply_events_spec(t, apply_event_spec(t, p, events[0]), events.drop_first())
    }
}

proof fn lemma_apply_events_push(t: PieceType, p: Piece, s: Seq<InputEvent>, e: InputEvent)
    ensures
        apply_events_spec(t, p, s.push(e)) == apply_event_spec(t, apply_events_spec(t, p, s), e),
    decreases s.len(),
{
    if s.len() == 0 {
        assert(s.push(e).drop_first() =~= s);
        assert(s.push(e)[0] == e);
        assert(apply_events_spec(t, p, s) == p);
        assert(apply_events_spec(t, apply_event_spec(t, p, e), s.push(e).drop_first())
            == apply_event_spec(t, p, e));
    } else {
        assert(s.push(e).drop_first() =~= s.drop_first().push(e));
        assert(s.push(e)[0] == s[0]);
        lemma_apply_events_push(t, apply_event_spec(t, p, s[0]), s.drop_first(), e);
    }
}

/// A cell the piece may rest on: inside the grid and empty.
pub open spec fn cell_free(g: Seq<Seq<u8>>, c: (i32, i32, i32)) -> bool {
    &&& 0 <= c.0 < 10
    &&& 0 <= c.1 < 22
    &&& g[c.1 as int][c.0 as int] == 0
}

/// A legal position: all four cells inside the grid and unoccupied.
pub open spec fn legal_spec(g: Seq<Seq<u8>>, t: PieceType, p: Piece) -> bool {
    forall|k: int|
        0 <= k < solid_spec(t, p).len() ==> cell_free(g, #[trigger] solid_spec(t, p)[k])
}

/// A grounded position: the anchor has dropped below the floor row, or some
/// cell lies on an occupied (or out-of-bounds, which counts as occupied)
/// grid cell.
pub open spec fn grounded_spec(g: Seq<Seq<u8>>, t: PieceType, p: Piece) -> bool {
    p.y < 0 || exists|k: int|
        0 <= k < solid_spec(t, p).len() && occupied_spec(
            g,
            (#[trigger] solid_spec(t, p)[k]).0 as int,
            solid_spec(t, p)[k].1 as int,
        )
}

/// With the anchor in a safe range the absolute cells are the exact sums of
/// shape offsets and anchor.
proof fn lemma_solid_cells(t: PieceType, p: Piece)
    requires
        0 <= p.rot,
        -200000 <= p.x <= 200000,
        -200000 <= p.y <= 200000,
    ensures
        solid_spec(t, p).len() == 4,
        forall|k: int|
            0 <= k < 4 ==> {
                let off = rotation_states(t)[rot_index(t, p.rot as int)][k];
                &&& (#[trigger] solid_spec(t, p)[k]).0 == off.0 + p.x
                &&& solid_spec(t, p)[k].1 == off.1 + p.y
                &&& 0 <= off.0 <= 3
                &&& 0 <= off.1 <= 3
            },
{
    lemma_states_len(t);
    let r = rot_index(t, p.rot as int);
    assert(0 <= r < rotation_states(t).len());
    lemma_catalog_shape_ok(t, r);
    let shape = rotation_states(t)[r];
    assert forall|k: int| 0 <= k < 4 implies {
        let off = rotation_states(t)[rot_index(t, p.rot as int)][k];
        &&& (#[trigger] solid_spec(t, p)[k]).0 == off.0 + p.x
        &&& solid_spec(t, p)[k].1 == off.1 + p.y
        &&& 0 <= off.0 <= 3
        &&& 0 <= off.1 <= 3
    } by {
        assert(shape_ok(shape));
        if k == 0 {
        } else if k == 1 {
        } else if k == 2 {
        } else {
        }
    }
}

/// A piece spawned with rotation 0 anywhere in the spawn corridor is
/// placeable.
proof fn lemma_spawn_piece_wf(t: PieceType, x: i32, y: i32)
    requires
        0 <= x <= 6,
        0 <= y <= 18,
    ensures
        piece_wf(t, Piece { x, y, rot: 0 }),
{
    let p = Piece { x, y, rot: 0 };
    lemma_states_len(t);
    lemma_solid_cells(t, p);
    assert forall|k: int| 0 <= k < solid_spec(t, p).len() implies 0 <= (#[trigger] solid_spec(
        t,
        p,
    )[k]).0 < 10 && 0 <= solid_spec(t, p)[k].1 < 22 by {}
}

/// Whether all four cells of piece `p` lie on free grid cells.
fn position_legal(pf: &Playfield, pieces: &Pieces, t: &PieceType, p: &Piece) -> (r: bool)
    requires
        pieces.wf(),
        0 <= p.rot,
        -200000 <= p.x <= 200000,
        -200000 <= p.y <= 200000,
    ensures
        r == legal_spec(pf.grid(), *t, *p),
{
    let cells = pieces.get_solid(t, p);
    let r = !pf.is_occupied(cells[0].0, cells[0].1) && !pf.is_occupied(cells[1].0, cells[1].1)
        && !pf.is_occupied(cells[2].0, cells[2].1) && !pf.is_occupied(cells[3].0, cells[3].1);
    proof {
        let cs = solid_spec(*t, *p);
        assert(cells@ == cs);
        assert(cells@.len() == 4);
        assert forall|k: int| 0 <= k < 4 implies (!occupied_spec(
            pf.grid(),
            cs[k].0 as int,
            cs[k].1 as int,
        )) == cell_free(pf.grid(), cs[k]) by {}
        if r {
            assert forall|k: int| 0 <= k < cs.len() implies cell_free(
                pf.grid(),
                #[trigger] cs[k],
            ) by {
                if k == 0 {
                } else if k == 1 {
                } else if k == 2 {
                } else {
                }
            }
        } else {
            assert(!legal_spec(pf.grid(), *t, *p));
        }
    }
    r
}

/// Whether piece `p` is grounded: its anchor below the floor row or some
/// cell on an occupied grid cell.
fn position_grounded(pf: &Playfield, pieces: &Pieces, t: &PieceType, p: &Piece) -> (r: bool)
    requires
        pieces.wf(),
        0 <= p.rot,
        -200000 <= p.x <= 200000,
        -200000 <= p.y <= 200000,
    ensures
        r == grounded_spec(pf.grid(), *t, *p),
{
    if p.y < 0 {
        return true;
    }
    let cells = pieces.get_solid(t, p);
    let b0 = pf.is_occupied(cells[0].0, cells[0].1);
    let b1 = pf.is_occupied(cells[1].0, cells[1].1);
    let b2 = pf.is_occupied(cells[2].0, cells[2].1);
    let b3 = pf.is_occupied(cells[3].0, cells[3].1);
    let r = b0 || b1 || b2 || b3;
    proof {
        let cs = solid_spec(*t, *p);
        assert(cells@ == cs);
        if r {
            if b0 {
                assert(occupied_spec(pf.grid(), cs[0].0 as int, cs[0].1 as int));
            } else if b1 {
                assert(occupied_spec(pf.grid(), cs[1].0 as int, cs[1].1 as int));
            } else if b2 {
                assert(occupied_spec(pf.grid(), cs[2].0 as int, cs[2].1 as int));
            } else {
                assert(occupied_spec(pf.grid(), cs[3].0 as int, cs[3].1 as int));
            }
        } else {
            assert forall|k: int| 0 <= k < cs.len() implies !occupied_spec(
                pf.grid(),
                (#[trigger] cs[k]).0 as int,
                cs[k].1 as int,
            ) by {
                if k == 0 {
                } else if k == 1 {
                } else if k == 2 {
                } else {
                }
            }
        }
    }
    r
}

/// What the input step does while a piece is falling: the piece's cells are
/// lifted off the grid (they are redrawn by the gravity step), the queued
/// events are applied in order to a candidate, and the candidate replaces
/// the piece only if all four of its cells are legal on the lifted grid —
/// there is no wall kick. Nothing else changes.
pub open spec fn input_step_rel(pre: Game, post: Game, events: Seq<InputEvent>) -> bool {
    let lifted = write_cells_spec(
        pre.playfield.grid(),
        solid_spec(pre.active_type, pre.active),
        0,
    );
    let cand = apply_events_spec(pre.active_type, pre.active, events);
    let moved = if legal_spec(lifted, pre.active_type, cand) {
        cand
    } else {
        pre.active
    };
    &&& post.playfield.grid() == lifted
    &&& post.active == moved
    &&& post.active_type == pre.active_type
    &&& post.pieces == pre.pieces
    &&& post.bag == pre.bag
    &&& post.state == pre.state
    &&& post.active_gen == pre.active_gen
    &&& post.next_gen == pre.next_gen
    &&& post.transition == pre.transition
}

/// A timer with its finished flag read off and cleared.
pub open spec fn cleared(t: TickTimer) -> TickTimer {
    TickTimer { elapsed: t.elapsed, duration: t.duration, finished: false, repeating: t.repeating }
}

/// What the gravity step does while a piece is falling. The soft-drop flag
/// latches onto the piece instance that first held it; gravity fires when
/// the applicable clock elapses; the piece moves down unless the moved
/// position is grounded; the piece is drawn where it rests. A grounded
/// piece is baked, full rows are counted and scheduled for elimination
/// (speeding up the gravity clock), and the next piece spawns from the bag.
pub open spec fn update_step_rel(pre: Game, post: Game, dt: u64, down: bool) -> bool {
    let fast_gen = if down {
        if pre.state.fast_generation is None {
            Some(pre.active_gen)
        } else {
            pre.state.fast_generation
        }
    } else {
        None
    };
    let fast = down && fast_gen == Some(pre.active_gen);
    let t1 = timer_tick_spec(pre.state.timer, dt);
    let ft1 = timer_tick_spec(pre.state.fast_timer, dt);
    let do_move = (!fast && t1.finished) || (fast && ft1.finished);
    let cand = if do_move {
        Piece { x: pre.active.x, y: (pre.active.y - 1) as i32, rot: pre.active.rot }
    } else {
        pre.active
    };
    let grounded = grounded_spec(pre.playfield.grid(), pre.active_type, cand);
    let rest = if grounded {
        pre.active
    } else {
        cand
    };
    let drawn = write_cells_spec(
        pre.playfield.grid(),
        solid_spec(pre.active_type, rest),
        color_of(pre.active_type),
    );
    &&& post.pieces == pre.pieces
    &&& post.playfield.grid() == drawn
    &&& post.state.fast_timer == cleared(ft1)
    &&& post.state.fast_generation == fast_gen
    &&& if !grounded {
        &&& post.active == rest
        &&& post.active_type == pre.active_type
        &&& post.active_gen == pre.active_gen
        &&& post.next_gen == pre.next_gen
        &&& post.bag == pre.bag
        &&& post.transition == pre.transition
        &&& post.state.timer == cleared(t1)
        &&& post.state.lines == pre.state.lines
    } else {
        let full = full_rows_spec(drawn);
        let lines2 = if pre.state.lines + full.len() <= usize::MAX {
            (pre.state.lines + full.len()) as usize
        } else {
            usize::MAX
        };
        &&& next_rel(pre.bag, post.bag, post.active_type)
        &&& post.active == (Piece { x: 3, y: 16, rot: 0 })
        &&& post.active_gen == pre.next_gen
        &&& post.next_gen == (if pre.next_gen < u64::MAX {
            (pre.next_gen + 1) as u64
        } else {
            u64::MAX
        })
        &&& post.state.lines == lines2
        &&& if full.len() > 0 {
            &&& post.state.timer == (TickTimer {
                elapsed: 0,
                duration: gravity_interval_spec(lines2 as int) as u64,
                finished: false,
                repeating: pre.state.timer.repeating,
            })
            &&& post.transition matches Some(lt) && lt.to_eliminate@ == full && lt.timer
                == (TickTimer {
                elapsed: 0,
                duration: CLEAR_DELAY_MICROS,
                finished: false,
                repeating: false,
            })
        } else {
            &&& post.state.timer == cleared(t1)
            &&& post.transition == pre.transition
        }
    }
}

/// What the line-clear step does: while a clear is pending only its timer
/// advances; when the timer completes, the eliminated rows are removed, the
/// rows above fall, and play resumes.
pub open spec fn lines_step_rel(pre: Game, post: Game, dt: u64) -> bool {
    match pre.transition {
        None => post == pre,
        Some(lt) => {
            let t1 = timer_tick_spec(lt.timer, dt);
            &&& post.pieces == pre.pieces
            &&& post.state == pre.state
            &&& post.bag == pre.bag
            &&& post.active_type == pre.active_type
            &&& post.active == pre.active
            &&& post.active_gen == pre.active_gen
            &&& post.next_gen == pre.next_gen
            &&& if t1.finished {
                &&& post.playfield.grid() == collapse_spec(
                    pre.playfield.grid(),
                    lt.to_eliminate@,
                )
                &&& post.transition is None
            } else {
                &&& post.playfield == pre.playfield
                &&& post.transition matches Some(lt2) && lt2.timer == t1 && lt2.to_eliminate@
                    == lt.to_eliminate@
            }
        },
    }
}

/// The input system when a clear is pending does nothing; otherwise it is
/// the input step.
pub open spec fn input_sys_rel(pre: Game, post: Game, events: Seq<InputEvent>) -> bool {
    if pre.transition is Some {
        post == pre
    } else {
        input_step_rel(pre, post, events)
    }
}

/// The gravity system when a clear is pending does nothing; otherwise it is
/// the gravity step.
pub open spec fn update_sys_rel(pre: Game, post: Game, dt: u64, down: bool) -> bool {
    if pre.transition is Some {
        post == pre
    } else {
        update_step_rel(pre, post, dt, down)
    }
}

impl Game {
    /// A fresh game: empty grid, gravity at the level-0 interval, the first
    /// piece drawn from a bag seeded with `seed` and spawned at the top.
    pub fn new(seed: u64) -> (g: Game)
        ensures
            game_wf(g),
            g.playfield.grid() == empty_grid(),
            g.state.lines == 0,
            g.state.timer.duration == gravity_interval_spec(0),
            g.state.fast_timer.duration == 3 * FRAME_MICROS,
            g.active == (Piece { x: 5, y: 16, rot: 0 }),
            g.transition is None,
    {
        let pieces = Pieces::new();
        let playfield = Playfield::new();
        let mut state = State::new();
        state.update_speed();
        let mut bag = PieceBag::new(seed);
        let active_type = bag.next();
        let g = Game {
            pieces,
            playfield,
            state,
            bag,
            active_type,
            active: Piece { x: 5, y: 16, rot: 0 },
            active_gen: 0,
            next_gen: 1,
            transition: None,
        };
        proof {
            lemma_spawn_piece_wf(g.active_type, 5, 16);
        }
        g
    }

    /// Applies the queued input events to the active piece: its cells are
    /// lifted off the grid, the events build a candidate position, and the
    /// candidate is kept only if legal. Suspended while a clear is pending.
    pub fn player_input_system(&mut self, events: &Vec<InputEvent>)
        requires
            game_wf(*old(self)),
            events@.len() <= 100000,
        ensures
            game_wf(*final(self)),
            old(self).transition is Some ==> *final(self) == *old(self),
            old(self).transition is None ==> input_step_rel(*old(self), *final(self), events@),
    {
        match &self.transition {
            Some(_) => {
                return ;
            },
            None => {},
        }
        let cells = self.pieces.get_solid(&self.active_type, &self.active);
        self.playfield.clear(&cells);
        let ghost t = self.active_type;
        let ghost p0 = self.active;
        let mut pnew = self.active;
        let mut k: usize = 0;
        proof {
            assert(events@.take(0) =~= Seq::<InputEvent>::empty());
            lemma_states_len(t);
        }
        while k < events.len()
            invariant
                k <= events@.len(),
                events@.len() <= 100000,
                self.pieces.wf(),
                t == self.active_type,
                pnew == apply_events_spec(t, p0, events@.take(k as int)),
                0 <= pnew.rot < rotation_states(t).len(),
                pnew.y == p0.y,
                p0.x - k <= pnew.x <= p0.x + k,
                -3 <= p0.x <= 9,
                1 <= rotation_states(t).len() <= 4,
            decreases events@.len() - k,
        {
            let ghost pprev = pnew;
            let e = events[k];
            match e {
                InputEvent::MoveLeft => {
                    pnew.x = pnew.x - 1;
                },
                InputEvent::MoveRight => {
                    pnew.x = pnew.x + 1;
                },
                InputEvent::RotateCW => {
                    let ns = self.pieces.get_solid_base(&self.active_type).len();
                    pnew.rot = (pnew.rot + 1) % (ns as i32);
                },
            }
            k += 1;
            proof {
                assert(pnew == apply_event_spec(t, pprev, e));
                assert(events@.take(k as int) =~= events@.take(k as int - 1).push(e));
                lemma_apply_events_push(t, p0, events@.take(k as int - 1), e);
            }
        }
        proof {
            assert(events@.take(events@.len() as int) =~= events@);
        }
        let legal = position_legal(&self.playfield, &self.pieces, &self.active_type, &pnew);
        if legal {
            self.active = pnew;
            proof {
                lemma_solid_cells(t, pnew);
                assert forall|k2: int| 0 <= k2 < solid_spec(t, pnew).len() implies 0 <= (
                #[trigger] solid_spec(t, pnew)[k2]).0 < 10 && 0 <= solid_spec(t, pnew)[k2].1
                    < 22 by {}
                let c0 = solid_spec(t, pnew)[0];
                let off0 = rotation_states(t)[rot_index(t, pnew.rot as int)][0];
                assert(c0.0 == off0.0 + pnew.x && c0.1 == off0.1 + pnew.y);
                assert(-3 <= pnew.x <= 9);
                assert(-3 <= pnew.y <= 21);
            }
        }
    }

    /// Advances the gravity clocks and applies gravity: the piece moves one
    /// row down when the applicable clock fires and the moved position is
    /// not grounded; a grounded piece is baked into the grid, full rows are
    /// scheduled for elimination, and the next piece spawns from the bag.
    /// Suspended while a clear is pending.
    #[verifier::rlimit(60)]
    pub fn piece_update_system(&mut self, dt: u64, down_pressed: bool)
        requires
            game_wf(*old(self)),
        ensures
            game_wf(*final(self)),
            old(self).transition is Some ==> *final(self) == *old(self),
            old(self).transition is None ==> update_step_rel(
                *old(self),
                *final(self),
                dt,
                down_pressed,
            ),
    {
        match &self.transition {
            Some(_) => {
                return ;
            },
            None => {},
        }
        self.state.timer.tick(dt);
        self.state.fast_timer.tick(dt);
        let fast_move = if down_pressed {
            if self.state.fast_generation.is_none() {
                self.state.fast_generation = Some(self.active_gen);
            }
            match self.state.fast_generation {
                Some(g) => g == self.active_gen,
                None => false,
            }
        } else {
            self.state.fast_generation = None;
            false
        };
        let do_move = (!fast_move && self.state.timer.finished) || (fast_move
            && self.state.fast_timer.finished);
        self.state.timer.finished = false;
        self.state.fast_timer.finished = false;
        let mut pnew = self.active;
        if do_move {
            pnew.y = pnew.y - 1;
        }
        let ghost t = self.active_type;
        let on_ground = position_grounded(&self.playfield, &self.pieces, &self.active_type, &pnew);
        if !on_ground {
            proof {
                assert forall|k2: int| 0 <= k2 < solid_spec(t, pnew).len() implies 0 <= (
                #[trigger] solid_spec(t, pnew)[k2]).0 < 10 && 0 <= solid_spec(t, pnew)[k2].1
                    < 22 by {
                    assert(!occupied_spec(
                        self.playfield.grid(),
                        solid_spec(t, pnew)[k2].0 as int,
                        solid_spec(t, pnew)[k2].1 as int,
                    ));
                }
                assert(piece_wf(t, pnew));
            }
            self.active = pnew;
        }
        let color = get_color(&self.active_type);
        let cells = self.pieces.get_solid(&self.active_type, &self.active);
        self.playfield.place(&cells, color as u8);
        if on_ground {
            let next = self.bag.next();
            let eliminate: Vec<usize> = self.playfield.full_rows();
            proof {
                lemma_full_rows_props(self.playfield.grid());
            }
            let n = eliminate.len();
            self.state.lines = if self.state.lines <= usize::MAX - n {
                self.state.lines + n
            } else {
                usize::MAX
            };
            if n > 0 {
                self.state.update_speed();
                self.transition = Some(
                    LineTransition {
                        timer: TickTimer::new(CLEAR_DELAY_MICROS, false),
                        to_eliminate: eliminate,
                    },
                );
            }
            self.active_type = next;
            self.active = Piece { x: 3, y: 16, rot: 0 };
            self.active_gen = self.next_gen;
            self.next_gen = if self.next_gen < u64::MAX {
                self.next_gen + 1
            } else {
                u64::MAX
            };
            proof {
                lemma_spawn_piece_wf(self.active_type, 3, 16);
            }
        }
    }

    /// Advances a pending line clear: when its delay completes the
    /// eliminated rows are removed, everything above falls, and play
    /// resumes. Does nothing when no clear is pending.
    pub fn check_lines_system(&mut self, dt: u64)
        requires
            game_wf(*old(self)),
        ensures
            game_wf(*final(self)),
            lines_step_rel(*old(self), *final(self), dt),
    {
        let finished = match &mut self.transition {
            None => false,
            Some(lt) => {
                lt.timer.tick(dt);
                lt.timer.finished
            },
        };
        if finished {
            match &self.transition {
                Some(lt) => {
                    self.playfield.collapse(&lt.to_eliminate);
                },
                None => {},
            }
            self.transition = None;
        }
    }

    /// One full tick: input resolution, then gravity and placement, then
    /// the line-clear timer, in that order.
    pub fn tick(&mut self, events: &Vec<InputEvent>, down_pressed: bool, dt: u64)
        requires
            game_wf(*old(self)),
            events@.len() <= 100000,
        ensures
            game_wf(*final(self)),
            exists|m1: Game, m2: Game|
                {
                    &&& #[trigger] input_sys_rel(*old(self), m1, events@)
                    &&& #[trigger] update_sys_rel(m1, m2, dt, down_pressed)
                    &&& lines_step_rel(m2, *final(self), dt)
                },
    {
        self.player_input_system(events);
        let ghost m1 = *self;
        self.piece_update_system(dt, down_pressed);
        let ghost m2 = *self;
        self.check_lines_system(dt);
        proof {
            assert(input_sys_rel(*old(self), m1, events@));
            assert(update_sys_rel(m1, m2, dt, down_pressed));
        }
    }
}

} // verus!
