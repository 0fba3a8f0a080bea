//! Text annotations.

use crate::graphics::vertex::Point;
use vstd::prelude::*;

verus! {

/// An axis-aligned rectangle in screen space, edges included.
#[derive(Clone, Copy, Debug, PartialEq, Eq, Structural)]
pub struct Rect {
    pub min_x: i64,
    pub min_y: i64,
    pub max_x: i64,
    pub max_y: i64,
}

impl Rect {
    /// The position `(x, y)` lies in the rectangle.
    pub open spec fn contains(self, x: int, y: int) -> bool {
        self.min_x <= x <= self.max_x && self.min_y <= y <= self.max_y
    }

    /// Whether the position `(x, y)` lies in the rectangle.
    pub fn holds(&self, x: i64, y: i64) -> (b: bool)
        ensures
            b == self.contains(x as int, y as int),
    {
        self.min_x <= x && x <= self.max_x && self.min_y <= y && y <= self.max_y
    }
}

/// A text placed in the drawing. `screen_bounds` is where the renderer
/// last painted it, and `annotative` texts keep their size on screen
/// whatever the zoom.
#[derive(Clone, Debug)]
pub struct Text {
    pub position: Point,
    pub contents: String,
    pub screen_bounds: Option<Rect>,
    pub editing: bool,
    pub annotative: bool,
}

/// A text as the contracts speak of it.
pub struct TextView {
    pub position: Point,
    pub contents: Seq<char>,
    pub screen_bounds: Option<Rect>,
    pub editing: bool,
    pub annotative: bool,
}

impl View for Text {
    type V = TextView;

    open spec fn view(&self) -> TextView {
        TextView {
            position: self.position,
            contents: self.contents@,
            screen_bounds: self.screen_bounds,
            editing: self.editing,
            annotative: self.annotative,
        }
    }
}

/// The texts of a collection as the contracts speak of them.
pub open spec fn text_views(texts: Seq<Text>) -> Seq<TextView> {
    Seq::new(texts.len(), |i: int| texts[i]@)
}

/// The text is painted over the screen position `(x, y)`.
pub open spec fn text_covers(t: TextView, x: int, y: int) -> bool {
    t.screen_bounds matches Some(r) && r.contains(x, y)
}

/// The index of the first text, from `from` on, painted over `(x, y)`.
pub open spec fn first_text_at(texts: Seq<TextView>, x: int, y: int, from: int) -> Option<usize>
    decreases texts.len() - from,
{
    if from < 0 || from >= texts.len() {
        None
    } else if text_covers(texts[from], x, y) {
        Some(from as usize)
    } else {
        first_text_at(texts, x, y, from + 1)
    }
}

impl Text {
    /// An empty annotative text at `position`, open for editing.
    pub fn new(position: Point) -> (text: Text)
        ensures
            text@ == (TextView {
                position,
                contents: Seq::empty(),
                screen_bounds: None,
                editing: true,
                annotative: true,
            }),
    {
        Text {
            position,
            contents: String::new(),
            screen_bounds: None,
            editing: true,
            annotative: true,
        }
    }
}

/// The index of the first text painted over the screen position `(x, y)`.
pub fn text_at(texts: &Vec<Text>, x: i64, y: i64) -> (hit: Option<usize>)
    ensures
        hit == first_text_at(text_views(texts@), x as int, y as int, 0),
        hit matches Some(i) ==> i < texts@.len(),
{
    let n = texts.len();
    let mut i: usize = 0;
    while i < n
        invariant
            n == texts@.len(),
            i <= n,
            first_text_at(text_views(texts@), x as int, y as int, 0) == first_text_at(
                text_views(texts@),
                x as int,
                y as int,
                i as int,
            ),
        decreases n - i,
    {
        let covered = match &texts[i].screen_bounds {
            Some(r) => r.holds(x, y),
            None => false,
        };
        assert(text_views(texts@)[i as int] == texts@[i as int]@);
        if covered {
            return Some(i);
        }
        i += 1;
    }
    None
}

} // verus!
