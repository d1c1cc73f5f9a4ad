//! The boot splash: which text lands where on the boot screen.
//!
//! `show` lays the banner out for a given console size and returns the draw
//! operations in order; the runtime performs them, pausing between the
//! animation frames and clearing the screen before the first and after the
//! last.

use vstd::prelude::*;

use crate::textfmt::push_char;

verus! {

/// One piece of text to draw at a character-cell position.
pub struct SplashDraw {
    pub x: usize,
    pub y: usize,
    pub text: String,
}

/// `n` spaces.
pub open spec fn spaces(n: int) -> Seq<char>
    decreases n,
{
    if n <= 0 {
        Seq::empty()
    } else {
        spaces(n - 1).push(' ')
    }
}

/// `s` padded with spaces on the right to `w` characters.
pub open spec fn spec_pad_right(s: Seq<char>, w: int) -> Seq<char> {
    if s.len() >= w {
        s
    } else {
        s + spaces(w - s.len())
    }
}

/// Pad a line with trailing spaces to the block width.
fn pad_right(s: &str, w: usize) -> (r: String)
    ensures
        r@ == spec_pad_right(s@, w as int),
        r@.len() == (if s@.len() >= w {
            s@.len()
        } else {
            w as nat
        }),
{
    let mut out: String = s.to_owned();
    let mut have = s.unicode_len();
    while have < w
        invariant
            s@.len() <= have,
            out@.len() == have,
            out@ == spec_pad_right(s@, have as int),
            have <= w || have == s@.len(),
        decreases w - have,
    {
        push_char(&mut out, ' ');
        have = have + 1;
        proof {
            assert(out@ =~= spec_pad_right(s@, have as int));
        }
    }
    out
}

/// Rows of banner art, then the animation frames under it.
pub const ART_ROWS: usize = 7;

pub const STATUS_FRAMES: usize = 8;

/// Width every splash line is padded to (the widest art row).
pub const BLOCK_WIDTH: usize = 42;

fn art_row(i: usize) -> (r: &'static str)
    requires
        i < ART_ROWS,
    ensures
        r@.len() <= BLOCK_WIDTH,
{
    let r: &'static str = match i {
        0 => " ____ _____ ____      _  _____ ___  ____  ",
        1 => "/ ___|_   _|  _ \\    / \\|_   _/ _ \\/ ___| ",
        2 => "\\___ \\ | | | |_) |  / _ \\ | || | | \\___ \\ ",
        3 => " ___) || | |  _ <  / ___ \\| || |_| |___)|",
        4 => "|____/ |_| |_| \\_\\/_/   \\_\\_| \\___/|____/ ",
        5 => "",
        _ => "",
    };
    proof {
        reveal_strlit(" ____ _____ ____      _  _____ ___  ____  ");
        reveal_strlit("/ ___|_   _|  _ \\    / \\|_   _/ _ \\/ ___| ");
        reveal_strlit("\\___ \\ | | | |_) |  / _ \\ | || | | \\___ \\ ");
        reveal_strlit(" ___) || | |  _ <  / ___ \\| || |_| |___)|");
        reveal_strlit("|____/ |_| |_| \\_\\/_/   \\_\\_| \\___/|____/ ");
        reveal_strlit("");
    }
    r
}

fn status_frame(i: usize) -> (r: &'static str)
    requires
        i < STATUS_FRAMES,
    ensures
        r@.len() <= BLOCK_WIDTH,
{
    let r: &'static str = match i % 4 {
        0 => "booting StratOS.",
        1 => "booting StratOS.",
        2 => "booting StratOS..",
        _ => "booting StratOS...",
    };
    proof {
        reveal_strlit("booting StratOS.");
        reveal_strlit("booting StratOS..");
        reveal_strlit("booting StratOS...");
    }
    r
}

/// Lay out the boot splash for a `cols` by `rows` console: the banner rows
/// centred, then the animation frames on the banner's last row, every line
/// padded to the block width.  The caller draws them in order, waiting
/// between frames, with a cleared screen before and after.
pub fn show(cols: usize, rows: usize) -> (r: Vec<SplashDraw>)
    ensures
        r@.len() == ART_ROWS + STATUS_FRAMES,
        ({
            let start_x = (if cols >= BLOCK_WIDTH {
                (cols - BLOCK_WIDTH) as int
            } else {
                0int
            }) / 2;
            let start_y = (if rows >= ART_ROWS {
                (rows - ART_ROWS) as int
            } else {
                0int
            }) / 2;
            &&& forall|i: int|
                0 <= i < ART_ROWS ==> (#[trigger] r@[i]).x == start_x && r@[i].y == start_y + i
                    && r@[i].text@.len() == BLOCK_WIDTH
            &&& forall|i: int|
                ART_ROWS <= i < r@.len() ==> (#[trigger] r@[i]).x == start_x && r@[i].y
                    == start_y + ART_ROWS - 1 && r@[i].text@.len() == BLOCK_WIDTH
        }),
{
    let start_x = cols.saturating_sub(BLOCK_WIDTH) / 2;
    let start_y = rows.saturating_sub(ART_ROWS) / 2;
    let status_row = start_y + ART_ROWS - 1;
    let mut r: Vec<SplashDraw> = Vec::new();
    let mut i: usize = 0;
    while i < ART_ROWS
        invariant
            i <= ART_ROWS,
            r@.len() == i,
            start_x == (if cols >= BLOCK_WIDTH {
                (cols - BLOCK_WIDTH) as int
            } else {
                0int
            }) / 2,
            start_y == (if rows >= ART_ROWS {
                (rows - ART_ROWS) as int
            } else {
                0int
            }) / 2,
            forall|k: int|
                0 <= k < i ==> (#[trigger] r@[k]).x == start_x && r@[k].y == start_y + k
                    && r@[k].text@.len() == BLOCK_WIDTH,
        decreases ART_ROWS - i,
    {
        let text = pad_right(art_row(i), BLOCK_WIDTH);
        r.push(SplashDraw { x: start_x, y: start_y + i, text });
        i = i + 1;
    }
    let mut f: usize = 0;
    while f < STATUS_FRAMES
        invariant
            f <= STATUS_FRAMES,
            r@.len() == ART_ROWS + f,
            status_row == start_y + ART_ROWS - 1,
            start_x == (if cols >= BLOCK_WIDTH {
                (cols - BLOCK_WIDTH) as int
            } else {
                0int
            }) / 2,
            start_y == (if rows >= ART_ROWS {
                (rows - ART_ROWS) as int
            } else {
                0int
            }) / 2,
            forall|k: int|
                0 <= k < ART_ROWS ==> (#[trigger] r@[k]).x == start_x && r@[k].y == start_y + k
                    && r@[k].text@.len() == BLOCK_WIDTH,
            forall|k: int|
                ART_ROWS <= k < r@.len() ==> (#[trigger] r@[k]).x == start_x && r@[k].y
                    == start_y + ART_ROWS - 1 && r@[k].text@.len() == BLOCK_WIDTH,
        decreases STATUS_FRAMES - f,
    {
        let text = pad_right(status_frame(f), BLOCK_WIDTH);
        r.push(SplashDraw { x: start_x, y: status_row, text });
        f = f + 1;
    }
    r
}

} // verus!
