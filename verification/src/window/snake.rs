//! The Snake game.

use vstd::prelude::*;

use crate::sound::Cue;
use crate::text;
use crate::window::manager;
use crate::window::manager::set_label_text;
use crate::window::state;
use crate::window::state::{AppModel, AppState, Snake, SnakeModel, Window, WindowModel};

verus! {

/// How often the snake looks for a free cell before it gives up on new food.
pub const FOOD_TRIES: usize = 64;

/// The direction asked for is taken unless it is straight back.
pub open spec fn turned(s: SnakeModel) -> (i8, i8) {
    if s.pending_dir.0 + s.dir.0 == 0 && s.pending_dir.1 + s.dir.1 == 0 {
        s.dir
    } else {
        s.pending_dir
    }
}

/// The cell that the head moves to.
pub open spec fn ahead(s: SnakeModel) -> (i16, i16) {
    ((s.snake[0].0 + turned(s).0) as i16, (s.snake[0].1 + turned(s).1) as i16)
}

/// Whether the next step hits the edge or the snake itself.
pub open spec fn crashes(s: SnakeModel) -> bool {
    !state::on_grid(ahead(s), s.grid_w, s.grid_h) || s.snake.contains(ahead(s))
}

pub open spec fn next_random(rng: u32) -> u32 {
    rng.wrapping_mul(1664525).wrapping_add(1013904223)
}

/// The cell that a random number stands for.
pub open spec fn random_cell(rng: u32, grid_w: u8, grid_h: u8) -> (i16, i16) {
    ((rng as int % grid_w as int) as i16, ((rng as int / 7) % grid_h as int) as i16)
}

/// New food, on the first free cell of at most `tries` random ones, so that
/// it does not hide under the snake; with no free cell found it stays.
pub open spec fn fed(s: SnakeModel, tries: nat) -> SnakeModel
    decreases tries,
{
    if tries == 0 {
        s
    } else {
        let rng = next_random(s.rng);
        let cell = random_cell(rng, s.grid_w, s.grid_h);
        if s.snake.contains(cell) {
            fed(SnakeModel { rng, ..s }, (tries - 1) as nat)
        } else {
            SnakeModel { rng, food: cell, ..s }
        }
    }
}

/// The game one step later.
pub open spec fn stepped(s: SnakeModel, now: u64) -> SnakeModel {
    let t = SnakeModel { dir: turned(s), last_step_ticks: now, ..s };
    if crashes(s) {
        SnakeModel { game_over: true, ..t }
    } else if ahead(s) == s.food {
        fed(
            SnakeModel {
                snake: seq![ahead(s)] + s.snake,
                score: (s.score + 1) as u32,
                ..t
            },
            FOOD_TRIES as nat,
        )
    } else {
        SnakeModel { snake: (seq![ahead(s)] + s.snake).drop_last(), ..t }
    }
}

/// What is heard of the step.
pub open spec fn step_cue(s: SnakeModel) -> Option<Cue> {
    if crashes(s) {
        Some(Cue::Boom)
    } else if ahead(s) == s.food {
        Some(Cue::Blip)
    } else {
        None
    }
}

pub open spec fn score_line(s: SnakeModel) -> Seq<char> {
    let line = "Score: "@ + text::decimal(s.score as nat);
    if s.game_over {
        line + "   Oh no!"@
    } else {
        line
    }
}

/// A Snake window after its game went one step.
pub open spec fn window_stepped(w: WindowModel, now: u64) -> WindowModel {
    match w.app {
        AppModel::Snake(s) => manager::labelled(
            WindowModel { app: AppModel::Snake(stepped(s, now)), ..w },
            2,
            score_line(stepped(s, now)),
        ),
        _ => w,
    }
}

/// No two parts of a snake share a cell, so there are no more parts than
/// cells.
pub proof fn snake_fits_its_grid(s: SnakeModel)
    requires
        s.wf(),
    ensures
        s.snake.len() <= s.grid_w * s.grid_h,
{
    reveal(SnakeModel::wf);
    let flat = s.snake.map_values(|c: (i16, i16)| c.1 * s.grid_w + c.0);
    let cells = vstd::set_lib::set_int_range(0, s.grid_w * s.grid_h);
    vstd::set_lib::lemma_int_range(0, s.grid_w * s.grid_h);
    assert forall|i: int, j: int| 0 <= i < flat.len() && 0 <= j < flat.len() && i != j implies flat[i]
        != flat[j] by {
        let a = s.snake[i];
        let b = s.snake[j];
        assert(state::on_grid(a, s.grid_w, s.grid_h) && state::on_grid(b, s.grid_w, s.grid_h));
        assert(a != b);
        assert(a.1 * s.grid_w + a.0 != b.1 * s.grid_w + b.0) by (nonlinear_arith)
            requires
                0 <= a.0 < s.grid_w,
                0 <= b.0 < s.grid_w,
                a.0 != b.0 || a.1 != b.1,
        ;
    }
    flat.unique_seq_to_set();
    assert forall|x: int| flat.to_set().contains(x) implies cells.contains(x) by {
        let i = choose|i: int| 0 <= i < flat.len() && flat[i] == x;
        let a = s.snake[i];
        assert(state::on_grid(a, s.grid_w, s.grid_h));
        assert(0 <= a.1 * s.grid_w + a.0 < s.grid_w * s.grid_h) by (nonlinear_arith)
            requires
                0 <= a.0 < s.grid_w,
                0 <= a.1 < s.grid_h,
        ;
    }
    vstd::set_lib::lemma_len_subset(flat.to_set(), cells);
}

pub proof fn fed_keeps(s: SnakeModel, tries: nat)
    requires
        s.wf(),
    ensures
        fed(s, tries).wf(),
        fed(s, tries).snake == s.snake,
        fed(s, tries).score == s.score,
        fed(s, tries).game_over == s.game_over,
        fed(s, tries).food == s.food || !s.snake.contains(fed(s, tries).food),
    decreases tries,
{
    reveal(SnakeModel::wf);
    if tries > 0 {
        let rng = next_random(s.rng);
        assert(state::on_grid(s.food, s.grid_w, s.grid_h));
        assert(0 <= rng as int % s.grid_w as int && (rng as int % s.grid_w as int) < s.grid_w);
        assert(0 <= (rng as int / 7) % s.grid_h as int && ((rng as int / 7) % s.grid_h as int)
            < s.grid_h);
        fed_keeps(SnakeModel { rng, ..s }, (tries - 1) as nat);
    }
}

/// A step keeps the game sound: the snake stays on the grid and off itself.
pub proof fn stepping_keeps_the_game_sound(s: SnakeModel, now: u64)
    requires
        s.wf(),
    ensures
        stepped(s, now).wf(),
{
    reveal(SnakeModel::wf);
    if !crashes(s) {
        snake_fits_its_grid(s);
        assert(s.grid_w * s.grid_h <= 65025) by (nonlinear_arith)
            requires
                s.grid_w <= 255,
                s.grid_h <= 255,
        ;
        let longer = seq![ahead(s)] + s.snake;
        assert forall|i: int, j: int|
            0 <= i < longer.len() && 0 <= j < longer.len() && i != j implies longer[i]
            != longer[j] by {
            if i == 0 {
                assert(s.snake.contains(s.snake[j - 1]));
            } else if j == 0 {
                assert(s.snake.contains(s.snake[i - 1]));
            }
        }
        assert forall|i: int| 0 <= i < longer.len() implies state::on_grid(
            #[trigger] longer[i],
            s.grid_w,
            s.grid_h,
        ) by {
            if i > 0 {
                assert(state::on_grid(s.snake[i - 1], s.grid_w, s.grid_h));
            }
        }
        let t = SnakeModel {
            snake: longer,
            score: (s.score + 1) as u32,
            dir: turned(s),
            last_step_ticks: now,
            ..s
        };
        if ahead(s) == s.food {
            assert(t.wf());
            fed_keeps(t, FOOD_TRIES as nat);
        } else {
            let moved = longer.drop_last();
            assert forall|i: int| 0 <= i < moved.len() implies state::on_grid(
                #[trigger] moved[i],
                s.grid_w,
                s.grid_h,
            ) by {
                assert(moved[i] == longer[i]);
            }
            assert(moved.no_duplicates());
        }
    }
}

/// A snake grows by one part, and scores one point, exactly when it eats.
pub proof fn only_eating_grows(s: SnakeModel, now: u64)
    requires
        s.wf(),
    ensures
        step_cue(s) == Some(Cue::Blip) ==> stepped(s, now).snake.len() == s.snake.len() + 1
            && stepped(s, now).score == s.score + 1,
        step_cue(s) != Some(Cue::Blip) ==> stepped(s, now).snake.len() == s.snake.len()
            && stepped(s, now).score == s.score,
        stepped(s, now).game_over == (s.game_over || step_cue(s) == Some(Cue::Boom)),
{
    reveal(SnakeModel::wf);
    stepping_keeps_the_game_sound(s, now);
    snake_fits_its_grid(s);
    assert(s.grid_w * s.grid_h <= 65025) by (nonlinear_arith)
        requires
            s.grid_w <= 255,
            s.grid_h <= 255,
    ;
    if step_cue(s) == Some(Cue::Blip) {
        fed_same(
            SnakeModel {
                snake: seq![ahead(s)] + s.snake,
                score: (s.score + 1) as u32,
                dir: turned(s),
                last_step_ticks: now,
                ..s
            },
            FOOD_TRIES as nat,
        );
    }
}

proof fn fed_same(s: SnakeModel, tries: nat)
    ensures
        fed(s, tries).snake == s.snake,
        fed(s, tries).score == s.score,
        fed(s, tries).game_over == s.game_over,
        fed(s, tries).dir == s.dir,
        fed(s, tries).last_step_ticks == s.last_step_ticks,
    decreases tries,
{
    if tries > 0 {
        fed_same(SnakeModel { rng: next_random(s.rng), ..s }, (tries - 1) as nat);
    }
}

fn occupies(snake: &Vec<(i16, i16)>, cell: (i16, i16)) -> (r: bool)
    ensures
        r == snake@.contains(cell),
{
    let mut i: usize = 0;
    while i < snake.len()
        invariant
            i <= snake@.len(),
            forall|j: int| 0 <= j < i ==> snake@[j] != cell,
        decreases snake@.len() - i,
    {
        if snake[i].0 == cell.0 && snake[i].1 == cell.1 {
            assert(snake@[i as int] == cell);
            return true;
        }
        i = i + 1;
    }
    false
}

fn feed(s: &mut Snake)
    requires
        old(s)@.wf(),
    ensures
        final(s)@ == fed(old(s)@, FOOD_TRIES as nat),
{
    let ghost start = s@;
    proof {
        reveal(SnakeModel::wf);
    }
    let mut left: usize = FOOD_TRIES;
    while left > 0
        invariant
            start == old(s)@,
            start.wf(),
            s@ == (SnakeModel { rng: s.rng, ..start }),
            left <= FOOD_TRIES,
            fed(start, FOOD_TRIES as nat) == fed(s@, left as nat),
        decreases left,
    {
        proof {
            reveal(SnakeModel::wf);
            assert(state::on_grid(start.food, start.grid_w, start.grid_h));
        }
        let rng: u32 = s.rng.wrapping_mul(1664525).wrapping_add(1013904223);
        s.rng = rng;
        let fx: i16 = (rng % s.grid_w as u32) as i16;
        let fy: i16 = ((rng / 7) % s.grid_h as u32) as i16;
        if !occupies(&s.snake, (fx, fy)) {
            s.food = (fx, fy);
            return;
        }
        left = left - 1;
    }
}

/// Move the snake one cell on, eating, growing or crashing as it goes.
#[verifier::rlimit(60)]
pub fn snake_step(win: &mut Window, now_ticks: u64) -> (r: Option<Cue>)
    requires
        old(win)@.wf(),
    ensures
        final(win)@ == window_stepped(old(win)@, now_ticks),
        final(win)@.wf(),
        r == (match old(win)@.app {
            AppModel::Snake(s) => step_cue(s),
            _ => None,
        }),
{
    let mut line = "Score: ".to_owned();
    let cue = match &mut win.app {
        AppState::Snake(s) => {
            let ghost s0 = s@;
            proof {
                reveal(SnakeModel::wf);
                stepping_keeps_the_game_sound(s0, now_ticks);
                snake_fits_its_grid(s0);
                assert(s0.grid_w * s0.grid_h <= 65025) by (nonlinear_arith)
                    requires
                        s0.grid_w <= 255,
                        s0.grid_h <= 255,
                ;
                assert(state::on_grid(s0.snake[0], s0.grid_w, s0.grid_h));
            }
            s.last_step_ticks = now_ticks;
            if !(s.pending_dir.0 + s.dir.0 == 0 && s.pending_dir.1 + s.dir.1 == 0) {
                s.dir = s.pending_dir;
            }
            let (hx, hy) = s.snake[0];
            let nx: i16 = hx + s.dir.0 as i16;
            let ny: i16 = hy + s.dir.1 as i16;
            assert((nx, ny) == ahead(s0));
            let cue = if nx < 0 || ny < 0 || nx >= s.grid_w as i16 || ny >= s.grid_h as i16
                || occupies(&s.snake, (nx, ny)) {
                s.game_over = true;
                Some(Cue::Boom)
            } else {
                let ate = nx == s.food.0 && ny == s.food.1;
                s.snake.insert(0, (nx, ny));
                assert(s.snake@ =~= seq![ahead(s0)] + s0.snake);
                if ate {
                    s.score = s.score + 1;
                    proof {
                        grown_sound(s0, now_ticks);
                    }
                    feed(s);
                    Some(Cue::Blip)
                } else {
                    s.snake.pop();
                    assert(s.snake@ =~= (seq![ahead(s0)] + s0.snake).drop_last());
                    None
                }
            };
            assert(s@ == stepped(s0, now_ticks));
            text::push_decimal(&mut line, s.score as u64);
            if s.game_over {
                line.append("   Oh no!");
            }
            cue
        },
        _ => {
            return None;
        },
    };
    set_label_text(win, 2, line.as_str());
    cue
}

/// A snake that has just eaten is as sound as it was before.
proof fn grown_sound(s: SnakeModel, now: u64)
    requires
        s.wf(),
        !crashes(s),
        ahead(s) == s.food,
    ensures
        (SnakeModel {
            snake: seq![ahead(s)] + s.snake,
            score: (s.score + 1) as u32,
            dir: turned(s),
            last_step_ticks: now,
            ..s
        }).wf(),
{
    reveal(SnakeModel::wf);
    stepping_keeps_the_game_sound(s, now);
    let t = SnakeModel {
        snake: seq![ahead(s)] + s.snake,
        score: (s.score + 1) as u32,
        dir: turned(s),
        last_step_ticks: now,
        ..s
    };
    fed_same(t, FOOD_TRIES as nat);
    fed_grid(t, FOOD_TRIES as nat);
}

proof fn fed_grid(s: SnakeModel, tries: nat)
    ensures
        fed(s, tries).grid_w == s.grid_w,
        fed(s, tries).grid_h == s.grid_h,
        fed(s, tries).pending_dir == s.pending_dir,
    decreases tries,
{
    if tries > 0 {
        fed_grid(SnakeModel { rng: next_random(s.rng), ..s }, (tries - 1) as nat);
    }
}

/// The snake follows its head: the head goes one cell on in the direction asked
/// for, or straight on where that would be straight back, and each other part
/// goes where the one before it was. The game ends, and nothing moves, exactly
/// where that cell is off the grid or taken by the snake.
pub proof fn the_snake_follows_its_head(s: SnakeModel, now: u64)
    requires
        s.wf(),
    ensures
        ({
            let back = s.pending_dir.0 == -s.dir.0 && s.pending_dir.1 == -s.dir.1;
            let d = if back {
                s.dir
            } else {
                s.pending_dir
            };
            let x = s.snake[0].0 + d.0;
            let y = s.snake[0].1 + d.1;
            let blocked = !(0 <= x < s.grid_w && 0 <= y < s.grid_h) || exists|i: int|
                0 <= i < s.snake.len() && (#[trigger] s.snake[i]).0 == x && s.snake[i].1 == y;
            let t = stepped(s, now);
            &&& t.dir == d
            &&& t.last_step_ticks == now
            &&& t.grid_w == s.grid_w && t.grid_h == s.grid_h
            &&& blocked ==> t.game_over && t.snake == s.snake && t.food == s.food && t.score
                == s.score
            &&& !blocked ==> {
                &&& t.game_over == s.game_over
                &&& t.snake[0].0 == x && t.snake[0].1 == y
                &&& forall|i: int|
                    1 <= i < t.snake.len() ==> #[trigger] t.snake[i] == s.snake[i - 1]
                &&& s.food.0 == x && s.food.1 == y ==> t.score == s.score + 1 && t.snake.len()
                    == s.snake.len() + 1
                &&& !(s.food.0 == x && s.food.1 == y) ==> t.score == s.score && t.snake.len()
                    == s.snake.len() && t.food == s.food
            }
        }),
{
    reveal(SnakeModel::wf);
    assert(state::on_grid(s.snake[0], s.grid_w, s.grid_h));
    let a = ahead(s);
    assert(a.0 == s.snake[0].0 + turned(s).0 && a.1 == s.snake[0].1 + turned(s).1);
    if s.snake.contains(a) {
        let i = choose|i: int| 0 <= i < s.snake.len() && s.snake[i] == a;
        assert(s.snake[i].0 == a.0 && s.snake[i].1 == a.1);
    }
    snake_fits_its_grid(s);
    assert(s.grid_w * s.grid_h <= 65025) by (nonlinear_arith)
        requires
            s.grid_w <= 255,
            s.grid_h <= 255,
    ;
    if !crashes(s) {
        assert forall|i: int| 0 <= i < s.snake.len() implies !((#[trigger] s.snake[i]).0 == a.0
            && s.snake[i].1 == a.1) by {
            if s.snake[i].0 == a.0 && s.snake[i].1 == a.1 {
                assert(s.snake[i] == a);
                assert(s.snake.contains(a));
            }
        }
        if a == s.food {
            let grown = SnakeModel {
                snake: seq![a] + s.snake,
                score: (s.score + 1) as u32,
                dir: turned(s),
                last_step_ticks: now,
                ..s
            };
            fed_same(grown, FOOD_TRIES as nat);
            fed_same_grid(grown, FOOD_TRIES as nat);
        }
    }
}

proof fn fed_same_grid(s: SnakeModel, tries: nat)
    ensures
        fed(s, tries).grid_w == s.grid_w,
        fed(s, tries).grid_h == s.grid_h,
    decreases tries,
{
    if tries > 0 {
        fed_same_grid(SnakeModel { rng: next_random(s.rng), ..s }, (tries - 1) as nat);
    }
}

/// New food lies on the grid and under no part of the snake; it is looked for
/// at most so many times, and only where each of them failed the old place is
/// kept.
pub proof fn food_is_put_on_a_free_cell(s: SnakeModel, tries: nat)
    requires
        s.wf(),
        tries > 0,
    ensures
        ({
            let f = fed(s, tries).food;
            ||| 0 <= f.0 < s.grid_w && 0 <= f.1 < s.grid_h && !s.snake.contains(f)
            ||| f == s.food
        }),
        !s.snake.contains(random_cell(next_random(s.rng), s.grid_w, s.grid_h)) ==> !s.snake.contains(
            fed(s, tries).food,
        ),
{
    fed_keeps(s, tries);
    let t = fed(s, tries);
    assert(t.wf());
    fed_same_grid(s, tries);
    assert(state::on_grid(t.food, t.grid_w, t.grid_h)) by {
        reveal(SnakeModel::wf);
    }
}

/// The score line ends with the score, and says so when the game is over.
pub proof fn the_score_is_shown(s: SnakeModel, t: SnakeModel)
    requires
        s.game_over == t.game_over,
        score_line(s) == score_line(t),
    ensures
        s.score == t.score,
{
    reveal_strlit("   Oh no!");
    let head = "Score: "@;
    let a = text::decimal(s.score as nat);
    let b = text::decimal(t.score as nat);
    if s.game_over {
        let x = (head + a) + "   Oh no!"@;
        let y = (head + b) + "   Oh no!"@;
        assert(x.len() == y.len());
        assert(x.take((head + a).len() as int) =~= head + a);
        assert(y.take((head + b).len() as int) =~= head + b);
    }
    assert((head + a).skip(head.len() as int) =~= a);
    assert((head + b).skip(head.len() as int) =~= b);
    text::natural_numerals_read_back(s.score as nat, u32::MAX as nat);
    text::natural_numerals_read_back(t.score as nat, u32::MAX as nat);
}

} // verus!
