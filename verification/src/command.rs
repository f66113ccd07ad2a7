//! Drawing commands, and how they are decoded from loosely typed payloads.

use crate::raster::{pack_color, packed};
use vstd::prelude::*;

verus! {

/// A colour as three channels, each meant to lie in `0..=255`.
#[derive(Clone, Copy, Debug, PartialEq, Eq, Structural)]
pub struct Color {
    pub r: u32,
    pub g: u32,
    pub b: u32,
}

impl Color {
    /// The packed pixel of this colour.
    pub open spec fn packed(self) -> u32 {
        packed(self.r, self.g, self.b)
    }

    /// The packed pixel of this colour.
    pub fn pack(&self) -> (p: u32)
        ensures
            p == self.packed(),
    {
        pack_color(self.r, self.g, self.b)
    }

    /// Black, the colour an engine starts with.
    pub fn black() -> (c: Color)
        ensures
            c == (Color { r: 0, g: 0, b: 0 }),
    {
        Color { r: 0, g: 0, b: 0 }
    }
}

/// One drawing instruction, decoded and ready to apply.
#[derive(Clone, Copy, Debug, PartialEq, Eq, Structural)]
#[allow(inconsistent_fields)]
pub enum Command {
    /// Replaces the current colour, which later rectangles and lines use.
    SetColor(Color),
    /// Plots `color` at `(x, y)`, whatever the current colour is.
    SetPixel { x: usize, y: usize, color: Color },
    /// Fills the half-open box between two corners with the current colour.
    DrawRect { x1: usize, y1: usize, x2: usize, y2: usize },
    /// Draws a line between two points in the current colour.
    DrawLine { x1: i32, y1: i32, x2: i32, y2: i32 },
    /// Clears the canvas to zero; ends a frame.
    Flush,
    /// Ends a frame and keeps the canvas.
    NewFrame,
}

impl Command {
    /// Whether the command ends a frame.
    pub open spec fn is_boundary(self) -> bool {
        self == Command::Flush || self == Command::NewFrame
    }

    /// Whether the command ends a frame.
    pub fn is_frame_boundary(&self) -> (boundary: bool)
        ensures
            boundary == self.is_boundary(),
    {
        match self {
            Command::Flush => true,
            Command::NewFrame => true,
            _ => false,
        }
    }
}

/// A loosely typed value as a caller hands it over: nothing, a number, or an
/// array of such values.
#[derive(Debug)]
pub enum Payload {
    Nil,
    Number(i64),
    Array(Vec<Payload>),
}

/// Why a payload does not have the shape that its command asks for.
#[derive(Clone, Copy, Debug, PartialEq, Eq, Structural)]
pub enum DecodeError {
    /// An array was expected and something else was found.
    NotAnArray,
    /// An array holds too few items, or a colour does not hold exactly three.
    WrongArity,
    /// A number was expected and something else was found.
    NotANumber,
}

/// A number as a colour channel: negative numbers become zero, numbers past
/// the channel's range become the largest value.
pub open spec fn channel_of(n: i64) -> u32 {
    if n < 0 {
        0u32
    } else if n > u32::MAX {
        u32::MAX
    } else {
        n as u32
    }
}

/// A number as a row or column of a rectangle or pixel: negative numbers
/// become zero, numbers past the machine's range become the largest value.
pub open spec fn index_of(n: i64) -> usize {
    if n < 0 {
        0usize
    } else if n > usize::MAX {
        usize::MAX
    } else {
        n as usize
    }
}

/// A number as a signed coordinate of a line, held to the range of `i32`.
pub open spec fn coord_of(n: i64) -> i32 {
    if n < i32::MIN {
        i32::MIN
    } else if n > i32::MAX {
        i32::MAX
    } else {
        n as i32
    }
}

/// The items of an array payload.
pub open spec fn items(p: Payload) -> Result<Seq<Payload>, DecodeError> {
    match p {
        Payload::Array(v) => Ok(v@),
        _ => Err(DecodeError::NotAnArray),
    }
}

/// The number at position `i` of an array's items.
pub open spec fn number_item(items: Seq<Payload>, i: int) -> Result<i64, DecodeError> {
    if items.len() <= i {
        Err(DecodeError::WrongArity)
    } else {
        match items[i] {
            Payload::Number(n) => Ok(n),
            _ => Err(DecodeError::NotANumber),
        }
    }
}

/// The items of the array at position `i` of an array's items.
pub open spec fn array_item(items: Seq<Payload>, i: int) -> Result<Seq<Payload>, DecodeError> {
    if items.len() <= i {
        Err(DecodeError::WrongArity)
    } else {
        self::items(items[i])
    }
}

/// The two leading numbers of an array's items.
pub open spec fn pair_items(items: Seq<Payload>) -> Result<(i64, i64), DecodeError> {
    match number_item(items, 0) {
        Err(e) => Err(e),
        Ok(a) => match number_item(items, 1) {
            Err(e) => Err(e),
            Ok(b) => Ok((a, b)),
        },
    }
}

/// The colour whose channels are the three leading numbers of an array's
/// items.
pub open spec fn color_items(items: Seq<Payload>) -> Result<Color, DecodeError> {
    match number_item(items, 0) {
        Err(e) => Err(e),
        Ok(r) => match number_item(items, 1) {
            Err(e) => Err(e),
            Ok(g) => match number_item(items, 2) {
                Err(e) => Err(e),
                Ok(b) => Ok(Color { r: channel_of(r), g: channel_of(g), b: channel_of(b) }),
            },
        },
    }
}

/// The two corner points `[[x1, y1], [x2, y2]]` of a rectangle or line.
pub open spec fn corner_items(p: Payload) -> Result<((i64, i64), (i64, i64)), DecodeError> {
    match items(p) {
        Err(e) => Err(e),
        Ok(v) => match array_item(v, 0) {
            Err(e) => Err(e),
            Ok(first) => match pair_items(first) {
                Err(e) => Err(e),
                Ok(p1) => match array_item(v, 1) {
                    Err(e) => Err(e),
                    Ok(second) => match pair_items(second) {
                        Err(e) => Err(e),
                        Ok(p2) => Ok((p1, p2)),
                    },
                },
            },
        },
    }
}

/// What a `set_color` payload decodes to: an array of exactly three numbers
/// gives the colour with those channels.
pub open spec fn decoded_set_color(p: Payload) -> Result<Command, DecodeError> {
    match items(p) {
        Err(e) => Err(e),
        Ok(v) => if v.len() != 3 {
            Err(DecodeError::WrongArity)
        } else {
            match color_items(v) {
                Err(e) => Err(e),
                Ok(c) => Ok(Command::SetColor(c)),
            }
        },
    }
}

/// What a `set_pixel` payload decodes to: `[x, y, [r, g, b]]` gives the pixel
/// at `(x, y)` in that colour.
pub open spec fn decoded_set_pixel(p: Payload) -> Result<Command, DecodeError> {
    match items(p) {
        Err(e) => Err(e),
        Ok(v) => match pair_items(v) {
            Err(e) => Err(e),
            Ok(at) => match array_item(v, 2) {
                Err(e) => Err(e),
                Ok(channels) => match color_items(channels) {
                    Err(e) => Err(e),
                    Ok(c) => Ok(
                        Command::SetPixel { x: index_of(at.0), y: index_of(at.1), color: c },
                    ),
                },
            },
        },
    }
}

/// What a `draw_rect` payload decodes to: `[[x1, y1], [x2, y2]]` gives the
/// box between those corners.
pub open spec fn decoded_draw_rect(p: Payload) -> Result<Command, DecodeError> {
    match corner_items(p) {
        Err(e) => Err(e),
        Ok(c) => Ok(
            Command::DrawRect {
                x1: index_of(c.0.0),
                y1: index_of(c.0.1),
                x2: index_of(c.1.0),
                y2: index_of(c.1.1),
            },
        ),
    }
}

/// What a `draw_line` payload decodes to: `[[x1, y1], [x2, y2]]` gives the
/// line between those points.
pub open spec fn decoded_draw_line(p: Payload) -> Result<Command, DecodeError> {
    match corner_items(p) {
        Err(e) => Err(e),
        Ok(c) => Ok(
            Command::DrawLine {
                x1: coord_of(c.0.0),
                y1: coord_of(c.0.1),
                x2: coord_of(c.1.0),
                y2: coord_of(c.1.1),
            },
        ),
    }
}

/// What a command of the given kind with the given payload decodes to. The
/// six kinds are `new_frame`, `flush`, `set_color`, `set_pixel`, `draw_rect`
/// and `draw_line`; a command of any other kind is `None`, which has no
/// effect on the canvas.
pub open spec fn decoded(kind: Seq<char>, p: Payload) -> Result<Option<Command>, DecodeError> {
    if kind == "new_frame"@ {
        Ok(Some(Command::NewFrame))
    } else if kind == "flush"@ {
        Ok(Some(Command::Flush))
    } else if kind == "set_color"@ {
        known(decoded_set_color(p))
    } else if kind == "set_pixel"@ {
        known(decoded_set_pixel(p))
    } else if kind == "draw_rect"@ {
        known(decoded_draw_rect(p))
    } else if kind == "draw_line"@ {
        known(decoded_draw_line(p))
    } else {
        Ok(None)
    }
}

/// The outcome of decoding a payload, as the outcome of decoding a command of
/// a known kind.
pub open spec fn known(r: Result<Command, DecodeError>) -> Result<Option<Command>, DecodeError> {
    match r {
        Ok(c) => Ok(Some(c)),
        Err(e) => Err(e),
    }
}

fn to_channel(n: i64) -> (c: u32)
    ensures
        c == channel_of(n),
{
    if n < 0 {
        0
    } else if n > u32::MAX as i64 {
        u32::MAX
    } else {
        n as u32
    }
}

fn to_index(n: i64) -> (i: usize)
    ensures
        i == index_of(n),
{
    if n < 0 {
        0
    } else if n as u64 > usize::MAX as u64 {
        usize::MAX
    } else {
        n as usize
    }
}

fn to_coord(n: i64) -> (c: i32)
    ensures
        c == coord_of(n),
{
    if n < i32::MIN as i64 {
        i32::MIN
    } else if n > i32::MAX as i64 {
        i32::MAX
    } else {
        n as i32
    }
}

fn items_of(p: &Payload) -> (r: Result<&Vec<Payload>, DecodeError>)
    ensures
        items(*p) == (match r {
            Ok(v) => Ok::<Seq<Payload>, DecodeError>(v@),
            Err(e) => Err(e),
        }),
{
    match p {
        Payload::Array(v) => Ok(v),
        _ => Err(DecodeError::NotAnArray),
    }
}

fn number_at(v: &Vec<Payload>, i: usize) -> (r: Result<i64, DecodeError>)
    ensures
        r == number_item(v@, i as int),
{
    if v.len() <= i {
        Err(DecodeError::WrongArity)
    } else {
        match &v[i] {
            Payload::Number(n) => Ok(*n),
            _ => Err(DecodeError::NotANumber),
        }
    }
}

fn array_at(v: &Vec<Payload>, i: usize) -> (r: Result<&Vec<Payload>, DecodeError>)
    ensures
        array_item(v@, i as int) == (match r {
            Ok(inner) => Ok::<Seq<Payload>, DecodeError>(inner@),
            Err(e) => Err(e),
        }),
{
    if v.len() <= i {
        Err(DecodeError::WrongArity)
    } else {
        items_of(&v[i])
    }
}

fn pair_of(v: &Vec<Payload>) -> (r: Result<(i64, i64), DecodeError>)
    ensures
        r == pair_items(v@),
{
    let a: i64 = match number_at(v, 0) {
        Ok(n) => n,
        Err(e) => { return Err(e); },
    };
    let b: i64 = match number_at(v, 1) {
        Ok(n) => n,
        Err(e) => { return Err(e); },
    };
    Ok((a, b))
}

fn color_of(v: &Vec<Payload>) -> (r: Result<Color, DecodeError>)
    ensures
        r == color_items(v@),
{
    let red: i64 = match number_at(v, 0) {
        Ok(n) => n,
        Err(e) => { return Err(e); },
    };
    let green: i64 = match number_at(v, 1) {
        Ok(n) => n,
        Err(e) => { return Err(e); },
    };
    let blue: i64 = match number_at(v, 2) {
        Ok(n) => n,
        Err(e) => { return Err(e); },
    };
    Ok(Color { r: to_channel(red), g: to_channel(green), b: to_channel(blue) })
}

fn corners_of(p: &Payload) -> (r: Result<((i64, i64), (i64, i64)), DecodeError>)
    ensures
        r == corner_items(*p),
{
    let v = match items_of(p) {
        Ok(v) => v,
        Err(e) => { return Err(e); },
    };
    let first = match array_at(v, 0) {
        Ok(inner) => inner,
        Err(e) => { return Err(e); },
    };
    let p1 = match pair_of(first) {
        Ok(pair) => pair,
        Err(e) => { return Err(e); },
    };
    let second = match array_at(v, 1) {
        Ok(inner) => inner,
        Err(e) => { return Err(e); },
    };
    let p2 = match pair_of(second) {
        Ok(pair) => pair,
        Err(e) => { return Err(e); },
    };
    Ok((p1, p2))
}

/// Decodes the payload of a request to replace the current colour. The
/// payload must be an array of exactly three numbers.
pub fn set_color(color: &Payload) -> (r: Result<Command, DecodeError>)
    ensures
        r == decoded_set_color(*color),
{
    let v = match items_of(color) {
        Ok(v) => v,
        Err(e) => { return Err(e); },
    };
    if v.len() != 3 {
        return Err(DecodeError::WrongArity);
    }
    match color_of(v) {
        Ok(c) => Ok(Command::SetColor(c)),
        Err(e) => Err(e),
    }
}

/// Decodes the payload of a request to plot one pixel, `[x, y, [r, g, b]]`.
pub fn set_pixel(pixel_info: &Payload) -> (r: Result<Command, DecodeError>)
    ensures
        r == decoded_set_pixel(*pixel_info),
{
    let v = match items_of(pixel_info) {
        Ok(v) => v,
        Err(e) => { return Err(e); },
    };
    let at = match pair_of(v) {
        Ok(pair) => pair,
        Err(e) => { return Err(e); },
    };
    let channels = match array_at(v, 2) {
        Ok(inner) => inner,
        Err(e) => { return Err(e); },
    };
    match color_of(channels) {
        Ok(c) => Ok(Command::SetPixel { x: to_index(at.0), y: to_index(at.1), color: c }),
        Err(e) => Err(e),
    }
}

/// Decodes the payload of a request to fill a rectangle,
/// `[[x1, y1], [x2, y2]]`.
pub fn draw_rect(pixel_coords: &Payload) -> (r: Result<Command, DecodeError>)
    ensures
        r == decoded_draw_rect(*pixel_coords),
{
    match corners_of(pixel_coords) {
        Ok(c) => Ok(
            Command::DrawRect {
                x1: to_index(c.0.0),
                y1: to_index(c.0.1),
                x2: to_index(c.1.0),
                y2: to_index(c.1.1),
            },
        ),
        Err(e) => Err(e),
    }
}

/// Decodes the payload of a request to draw a line, `[[x1, y1], [x2, y2]]`.
pub fn draw_line(pixel_coords: &Payload) -> (r: Result<Command, DecodeError>)
    ensures
        r == decoded_draw_line(*pixel_coords),
{
    match corners_of(pixel_coords) {
        Ok(c) => Ok(
            Command::DrawLine {
                x1: to_coord(c.0.0),
                y1: to_coord(c.0.1),
                x2: to_coord(c.1.0),
                y2: to_coord(c.1.1),
            },
        ),
        Err(e) => Err(e),
    }
}

/// The command that clears the canvas and ends the frame.
pub fn flush() -> (c: Command)
    ensures
        c == Command::Flush,
{
    Command::Flush
}

/// The command that ends the frame and keeps the canvas.
pub fn new_frame() -> (c: Command)
    ensures
        c == Command::NewFrame,
{
    Command::NewFrame
}

/// Whether two strings hold the same text.
fn same_text(a: &str, b: &str) -> (same: bool)
    ensures
        same == (a@ == b@),
{
    let left: String = a.to_owned();
    let right: String = b.to_owned();
    left == right
}

fn as_known(r: Result<Command, DecodeError>) -> (out: Result<Option<Command>, DecodeError>)
    ensures
        out == known(r),
{
    match r {
        Ok(c) => Ok(Some(c)),
        Err(e) => Err(e),
    }
}

/// Decodes a command from its kind and its payload. A kind that names no
/// command gives `None`; a payload that does not have the shape its kind asks
/// for gives the error.
pub fn decode(kind: &str, payload: &Payload) -> (r: Result<Option<Command>, DecodeError>)
    ensures
        r == decoded(kind@, *payload),
{
    if same_text(kind, "new_frame") {
        Ok(Some(new_frame()))
    } else if same_text(kind, "flush") {
        Ok(Some(flush()))
    } else if same_text(kind, "set_color") {
        as_known(set_color(payload))
    } else if same_text(kind, "set_pixel") {
        as_known(set_pixel(payload))
    } else if same_text(kind, "draw_rect") {
        as_known(draw_rect(payload))
    } else if same_text(kind, "draw_line") {
        as_known(draw_line(payload))
    } else {
        Ok(None)
    }
}

} // verus!
