//! The widgets of the menu layer: buttons, text boxes and rows of buttons,
//! with the test that tells which widget lies under the cursor.

use crate::text::{
    alphanumeric, is_alphanumeric, lowercase_of, pad_right, padded, pop_char, push_char,
    replace_blanks, to_lowercase, underscored, WIDEST_PADDING,
};
use vstd::prelude::*;

verus! {

/// The start corner and the end corner of a widget.
pub type BBox = ((i32, i32), (i32, i32));

/// The hit test reaches this many cells to the left of a box.
pub const HIT_SHIFT: i32 = 4;

/// Whether the end corner of the box at `pos` with extent `size` can be
/// held in machine integers.
pub open spec fn bbox_fits(pos: (i32, i32), size: (i32, i32)) -> bool {
    &&& i32::MIN <= pos.0 + size.0 <= i32::MAX
    &&& i32::MIN <= pos.1 + size.1 <= i32::MAX
}

/// The box that starts at `pos` and ends `size` further on.
pub open spec fn calculate_bbox_spec(pos: (i32, i32), size: (i32, i32)) -> BBox {
    (pos, ((pos.0 + size.0) as i32, (pos.1 + size.1) as i32))
}

/// The box that starts at `pos` and ends `size` further on.
pub fn calculate_bbox(pos: (i32, i32), size: (i32, i32)) -> (bbox: BBox)
    requires
        bbox_fits(pos, size),
    ensures
        bbox == calculate_bbox_spec(pos, size),
{
    (pos, (pos.0 + size.0, pos.1 + size.1))
}

/// Whether `loc` collides with the box: it lies no further left than
/// `HIT_SHIFT` before the start and no further right than `HIT_SHIFT` before
/// the end, no lower than the start row and no higher than the end row.
pub open spec fn box_hit(bbox: BBox, loc: (i32, i32)) -> bool {
    &&& loc.0 >= bbox.0.0 - HIT_SHIFT
    &&& loc.1 <= bbox.0.1
    &&& loc.0 <= bbox.1.0 - HIT_SHIFT
    &&& loc.1 >= bbox.1.1
}

/// Tests whether `loc` collides with the box.
pub fn hits(bbox: BBox, loc: (i32, i32)) -> (hit: bool)
    ensures
        hit == box_hit(bbox, loc),
{
    let x: i64 = loc.0 as i64;
    let left: i64 = (bbox.0).0 as i64 - HIT_SHIFT as i64;
    let right: i64 = (bbox.1).0 as i64 - HIT_SHIFT as i64;
    x >= left && loc.1 <= (bbox.0).1 && x <= right && loc.1 >= (bbox.1).1
}

/// The identifier of the widget named `name`: the name in lowercase, with
/// underscores for blanks.
pub open spec fn id_of(name: Seq<char>) -> Seq<char> {
    lowercase_of(underscored(name))
}

/// Makes the identifier of the widget named `name`.
pub fn make_id(name: &str) -> (id: String)
    ensures
        id@ == id_of(name@),
{
    let joined: String = replace_blanks(name);
    to_lowercase(joined.as_str())
}

/// A widget that the mouse can point at.
pub trait MouseUI {
    /// The box of the widget.
    spec fn bbox_spec(&self) -> BBox;

    /// The identifier of the widget.
    spec fn id_spec(&self) -> Seq<char>;

    fn bbox(&self) -> (bbox: BBox)
        ensures
            bbox == self.bbox_spec(),
    ;

    fn id(&self) -> (id: String)
        ensures
            id@ == self.id_spec(),
    ;

    /// The identifier of the widget if `loc` collides with it.
    fn bbox_colliding(&self, loc: (i32, i32)) -> (hit: Option<String>)
        default_ensures
            hit is Some <==> box_hit(self.bbox_spec(), loc),
            hit matches Some(id) ==> id@ == self.id_spec(),
    {
        let bbox: BBox = self.bbox();
        if hits(bbox, loc) {
            Some(self.id())
        } else {
            None
        }
    }
}

/// A button with its label and its identifier.
#[derive(Debug)]
pub struct Button {
    pub bbox: BBox,
    pub text: String,
    pub id: String,
}

/// Whether a button can be `width` cells wide: its label is filled up to
/// that width, which must be one the formatter takes.
pub open spec fn width_fits(width: i32) -> bool {
    0 <= width <= WIDEST_PADDING
}

impl Button {
    /// The button named `name` at `pos`. Its label is the name filled up
    /// with blanks to the width of the button.
    pub fn new(name: &'static str, pos: (i32, i32), size: (i32, i32)) -> (button: Button)
        requires
            bbox_fits(pos, size),
            width_fits(size.0),
        ensures
            button.bbox == calculate_bbox_spec(pos, size),
            button.text@ == padded(name@, size.0 as nat),
            button.id@ == id_of(name@),
    {
        Button {
            bbox: calculate_bbox(pos, size),
            text: pad_right(name, size.0 as usize),
            id: make_id(name),
        }
    }
}

impl MouseUI for Button {
    open spec fn bbox_spec(&self) -> BBox {
        self.bbox
    }

    open spec fn id_spec(&self) -> Seq<char> {
        self.id@
    }

    fn id(&self) -> (id: String) {
        self.id.clone()
    }

    fn bbox(&self) -> (bbox: BBox) {
        self.bbox
    }
}

/// A key as the text box sees it: the character it prints and whether it is
/// the backspace key.
#[derive(Clone, Copy, Debug, PartialEq, Eq)]
pub struct KeyPress {
    pub printable: char,
    pub backspace: bool,
}

/// A line of text that can be typed into.
#[derive(Debug)]
pub struct Textbox {
    pub value: String,
    pub placeholder: String,
    pub bbox: BBox,
    pub id: String,
}

/// The text after a key: a letter or digit is appended, backspace removes
/// the last character, and any other key changes nothing.
pub open spec fn edited(value: Seq<char>, printable: char, is_alnum: bool, backspace: bool) -> Seq<
    char,
> {
    if is_alnum {
        value.push(printable)
    } else if backspace && value.len() > 0 {
        value.drop_last()
    } else {
        value
    }
}

/// The text that a box shows: what was typed, or the placeholder while
/// nothing has been typed.
pub open spec fn shown_text_spec(value: Seq<char>, placeholder: Seq<char>) -> Seq<char> {
    if value.len() == 0 {
        placeholder
    } else {
        value
    }
}

impl Textbox {
    /// The empty text box with placeholder `text`. Its box is given by `pos`
    /// and `size` as they are.
    pub fn new(text: &'static str, pos: (i32, i32), size: (i32, i32)) -> (textbox: Textbox)
        ensures
            textbox.value@ == Seq::<char>::empty(),
            textbox.placeholder@ == text@,
            textbox.bbox == (pos, size),
            textbox.id@ == id_of(text@),
    {
        Textbox {
            value: String::new(),
            placeholder: text.to_owned(),
            bbox: (pos, size),
            id: make_id(text),
        }
    }

    /// Changes the text by one key, given whether the key's character is a
    /// letter or a digit.
    pub fn edit(&mut self, printable: char, is_alnum: bool, backspace: bool)
        ensures
            final(self).value@ == edited(old(self).value@, printable, is_alnum, backspace),
            final(self).placeholder == old(self).placeholder,
            final(self).bbox == old(self).bbox,
            final(self).id == old(self).id,
    {
        if is_alnum {
            push_char(&mut self.value, printable);
        } else if backspace {
            pop_char(&mut self.value);
        }
    }

    /// Takes a key.
    pub fn input(&mut self, input: &KeyPress)
        ensures
            final(self).value@ == edited(
                old(self).value@,
                input.printable,
                alphanumeric(input.printable),
                input.backspace,
            ),
            final(self).placeholder == old(self).placeholder,
            final(self).bbox == old(self).bbox,
            final(self).id == old(self).id,
    {
        let is_alnum: bool = is_alphanumeric(input.printable);
        self.edit(input.printable, is_alnum, input.backspace);
    }

    /// The text that the box shows.
    pub fn shown_text(&self) -> (text: String)
        ensures
            text@ == shown_text_spec(self.value@, self.placeholder@),
    {
        if self.value.as_str().unicode_len() == 0 {
            self.placeholder.clone()
        } else {
            self.value.clone()
        }
    }
}

impl MouseUI for Textbox {
    open spec fn bbox_spec(&self) -> BBox {
        self.bbox
    }

    open spec fn id_spec(&self) -> Seq<char> {
        self.id@
    }

    fn id(&self) -> (id: String) {
        self.id.clone()
    }

    fn bbox(&self) -> (bbox: BBox) {
        self.bbox
    }
}

/// A marked region of the screen.
pub struct Selection {
    bbox: BBox,
}

/// The size of a number without its sign.
pub open spec fn magnitude(a: int) -> int {
    if a < 0 {
        -a
    } else {
        a
    }
}

/// The quotient of `a` by `b` rounded towards zero, as machine division
/// gives it.
pub open spec fn div_toward_zero(a: int, b: int) -> int {
    let q = magnitude(a) / magnitude(b);
    if (a < 0) == (b < 0) {
        q
    } else {
        -q
    }
}

/// The remainder that machine division leaves: it has the sign of `a`.
pub open spec fn rem_toward_zero(a: int, b: int) -> int {
    let r = magnitude(a) % magnitude(b);
    if a < 0 {
        -r
    } else {
        r
    }
}

/// Where the button at place `i` of a row lies: the buttons follow one
/// another at the distance of their width and wrap into a new line at
/// `wrap_at`, the lines one more than the height of a button apart. The
/// division by `wrap_at` rounds towards zero, so a negative `wrap_at` stacks
/// the lines the other way.
pub open spec fn slot(i: int, pos: (i32, i32), size: (i32, i32), wrap_at: i32) -> (int, int) {
    let raw = i * size.0;
    (
        pos.0 + rem_toward_zero(raw, wrap_at as int),
        pos.1 + div_toward_zero(raw, wrap_at as int) * (size.1 + 1),
    )
}

/// Whether the button at place `i` can be laid out: the wrap width is not
/// zero, the button has a width its label can be filled to, and the position
/// and everything computed on the way to it can be held in machine integers.
pub open spec fn slot_fits(i: int, pos: (i32, i32), size: (i32, i32), wrap_at: i32) -> bool {
    let raw = i * size.0;
    let at = slot(i, pos, size, wrap_at);
    &&& wrap_at != 0
    &&& width_fits(size.0)
    &&& 0 <= i <= i32::MAX
    &&& raw <= i32::MAX
    &&& size.1 + 1 <= i32::MAX
    &&& i32::MIN <= div_toward_zero(raw, wrap_at as int) * (size.1 + 1) <= i32::MAX
    &&& i32::MIN <= at.0 <= i32::MAX
    &&& i32::MIN <= at.1 <= i32::MAX
    &&& i32::MIN <= at.0 + size.0 <= i32::MAX
    &&& i32::MIN <= at.1 + size.1 <= i32::MAX
}

/// The position of the button at place `i`, or `None` where the button
/// cannot be laid out.
pub fn place(i: usize, pos: (i32, i32), size: (i32, i32), wrap_at: i32) -> (at: Option<(i32, i32)>)
    ensures
        at is Some <==> slot_fits(i as int, pos, size, wrap_at),
        at matches Some(p) ==> (p.0 as int, p.1 as int) == slot(i as int, pos, size, wrap_at),
{
    if wrap_at == 0 || size.0 < 0 || size.0 as usize > WIDEST_PADDING {
        return None;
    }
    if i > 0x7fff_ffff {
        return None;
    }
    let n: i64 = i as i64;
    let w: i64 = size.0 as i64;
    let wrap: i64 = wrap_at as i64;
    let span: i64 = if wrap > 0 {
        wrap
    } else {
        -wrap
    };
    assert(0 <= n * w <= 0x7fff_ffff * 0x7fff_ffff) by (nonlinear_arith)
        requires
            0 <= n <= 0x7fff_ffff,
            0 <= w <= 0x7fff_ffff,
    ;
    let raw: i64 = n * w;
    if raw > 0x7fff_ffff {
        return None;
    }
    let step: i64 = size.1 as i64 + 1;
    if step > 0x7fff_ffff {
        return None;
    }
    let lines: i64 = raw / span;
    let offset: i64 = raw % span;
    assert(0 <= lines <= raw && 0 <= offset < span) by (nonlinear_arith)
        requires
            0 <= raw,
            0 < span,
            lines == raw / span,
            offset == raw % span,
    ;
    let line: i64 = if wrap > 0 {
        lines
    } else {
        -lines
    };
    assert(line == div_toward_zero(raw as int, wrap_at as int));
    assert(offset == rem_toward_zero(raw as int, wrap_at as int));
    assert(-0x8000_0000 * 0x8000_0000 <= line * step <= 0x8000_0000 * 0x8000_0000)
        by (nonlinear_arith)
        requires
            -0x7fff_ffff <= line <= 0x7fff_ffff,
            -0x8000_0000 <= step <= 0x8000_0000,
    ;
    let rise: i64 = line * step;
    if rise > 0x7fff_ffff || rise < -0x8000_0000 {
        return None;
    }
    let x: i64 = pos.0 as i64 + offset;
    let y: i64 = pos.1 as i64 + rise;
    if x > 0x7fff_ffff || y > 0x7fff_ffff || y < -0x8000_0000 {
        return None;
    }
    let end_x: i64 = x + w;
    let end_y: i64 = y + size.1 as i64;
    if end_x > 0x7fff_ffff || end_y > 0x7fff_ffff || end_y < -0x8000_0000 {
        return None;
    }
    Some((x as i32, y as i32))
}

/// A row of buttons.
#[derive(Debug)]
pub struct Layout {
    pub buttons: Vec<Button>,
}

/// Whether `button` is the button named `name` at place `i` of the row.
pub open spec fn is_button_at(
    button: Button,
    name: Seq<char>,
    i: int,
    pos: (i32, i32),
    size: (i32, i32),
    wrap_at: i32,
) -> bool {
    let at = slot(i, pos, size, wrap_at);
    &&& button.bbox == calculate_bbox_spec((at.0 as i32, at.1 as i32), size)
    &&& button.text@ == padded(name, size.0 as nat)
    &&& button.id@ == id_of(name)
}

/// The place of the last button of the row that `loc` collides with.
pub open spec fn last_hit(buttons: Seq<Button>, loc: (i32, i32)) -> Option<int>
    decreases buttons.len(),
{
    if buttons.len() == 0 {
        None
    } else if box_hit(buttons.last().bbox, loc) {
        Some(buttons.len() - 1)
    } else {
        last_hit(buttons.drop_last(), loc)
    }
}

/// `last_hit` names a button that is hit, after which none is hit; it names
/// none exactly when no button is hit.
pub proof fn lemma_last_hit(buttons: Seq<Button>, loc: (i32, i32))
    ensures
        match last_hit(buttons, loc) {
            Some(k) => {
                &&& 0 <= k < buttons.len()
                &&& box_hit(buttons[k].bbox, loc)
                &&& forall|j: int| k < j < buttons.len() ==> !box_hit((#[trigger] buttons[j]).bbox, loc)
            },
            None => forall|j: int| 0 <= j < buttons.len() ==> !box_hit((#[trigger] buttons[j]).bbox, loc),
        },
    decreases buttons.len(),
{
    if buttons.len() > 0 {
        lemma_last_hit(buttons.drop_last(), loc);
        if !box_hit(buttons.last().bbox, loc) {
            match last_hit(buttons, loc) {
                Some(k) => {
                    assert(buttons.drop_last()[k] == buttons[k]);
                    assert forall|j: int| k < j < buttons.len() implies !box_hit(
                        (#[trigger] buttons[j]).bbox,
                        loc,
                    ) by {
                        if j < buttons.len() - 1 {
                            assert(buttons.drop_last()[j] == buttons[j]);
                        }
                    }
                },
                None => {
                    assert forall|j: int| 0 <= j < buttons.len() implies !box_hit(
                        (#[trigger] buttons[j]).bbox,
                        loc,
                    ) by {
                        if j < buttons.len() - 1 {
                            assert(buttons.drop_last()[j] == buttons[j]);
                        }
                    }
                },
            }
        }
    }
}

impl Layout {
    /// The row of buttons named by `elements`, starting at `pos`. Every
    /// button must be one that can be laid out; a row without buttons always
    /// can.
    pub fn new(
        elements: Vec<&'static str>,
        pos: (i32, i32),
        button_size: (i32, i32),
        wrap_at: i32,
    ) -> (layout: Layout)
        requires
            forall|i: int|
                0 <= i < elements@.len() ==> #[trigger] slot_fits(i, pos, button_size, wrap_at),
        ensures
            layout.buttons@.len() == elements@.len(),
            forall|i: int|
                0 <= i < elements@.len() ==> is_button_at(
                    #[trigger] layout.buttons@[i],
                    elements@[i]@,
                    i,
                    pos,
                    button_size,
                    wrap_at,
                ),
    {
        let mut buttons: Vec<Button> = Vec::new();
        let mut i: usize = 0;
        while i < elements.len()
            invariant
                i <= elements.len(),
                forall|k: int|
                    0 <= k < elements@.len() ==> #[trigger] slot_fits(k, pos, button_size, wrap_at),
                buttons@.len() == i,
                forall|k: int|
                    0 <= k < i ==> is_button_at(
                        #[trigger] buttons@[k],
                        elements@[k]@,
                        k,
                        pos,
                        button_size,
                        wrap_at,
                    ),
            decreases elements.len() - i,
        {
            assert(slot_fits(i as int, pos, button_size, wrap_at));
            match place(i, pos, button_size, wrap_at) {
                Some(at) => {
                    let button = Button::new(elements[i], at, button_size);
                    buttons.push(button);
                },
                None => {},
            }
            i = i + 1;
        }
        Layout { buttons }
    }

    /// The row of buttons named by `elements`, or `None` where one of the
    /// buttons cannot be laid out.
    pub fn try_new(
        elements: Vec<&'static str>,
        pos: (i32, i32),
        button_size: (i32, i32),
        wrap_at: i32,
    ) -> (out: Option<Layout>)
        ensures
            out is Some <==> (forall|i: int|
                0 <= i < elements@.len() ==> #[trigger] slot_fits(i, pos, button_size, wrap_at)),
            out matches Some(layout) ==> layout.buttons@.len() == elements@.len() && forall|i: int|
                0 <= i < elements@.len() ==> is_button_at(
                    #[trigger] layout.buttons@[i],
                    elements@[i]@,
                    i,
                    pos,
                    button_size,
                    wrap_at,
                ),
    {
        let mut i: usize = 0;
        while i < elements.len()
            invariant
                i <= elements.len(),
                forall|k: int| 0 <= k < i ==> #[trigger] slot_fits(k, pos, button_size, wrap_at),
            decreases elements.len() - i,
        {
            if place(i, pos, button_size, wrap_at).is_none() {
                return None;
            }
            i = i + 1;
        }
        Some(Layout::new(elements, pos, button_size, wrap_at))
    }
}

impl MouseUI for Layout {
    open spec fn bbox_spec(&self) -> BBox {
        ((0, 0), (0, 0))
    }

    open spec fn id_spec(&self) -> Seq<char> {
        Seq::empty()
    }

    fn bbox(&self) -> (bbox: BBox) {
        ((0, 0), (0, 0))
    }

    fn id(&self) -> (id: String) {
        String::new()
    }

    /// The identifier of the last button of the row that `loc` collides
    /// with.
    fn bbox_colliding(&self, loc: (i32, i32)) -> (hit: Option<String>)
        ensures
            hit is Some <==> last_hit(self.buttons@, loc) is Some,
            hit matches Some(id) ==> id@ == self.buttons@[last_hit(self.buttons@, loc).unwrap()].id@,
    {
        let mut i: usize = self.buttons.len();
        assert(self.buttons@.take(i as int) =~= self.buttons@);
        while i > 0
            invariant
                i <= self.buttons.len(),
                last_hit(self.buttons@, loc) == last_hit(self.buttons@.take(i as int), loc),
            decreases i,
        {
            let ghost front = self.buttons@.take(i as int);
            assert(front.drop_last() =~= self.buttons@.take(i - 1));
            assert(front.last() == self.buttons@[i - 1]);
            i = i - 1;
            let found = self.buttons[i].bbox_colliding(loc);
            if found.is_some() {
                return found;
            }
        }
        None
    }
}

} // verus!
