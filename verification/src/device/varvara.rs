//! The Varvara device without its window: the system, console and screen
//! ports, the two frame buffers behind them, and what is left for the host to
//! do with a real window and a real console.

use crate::common::{high_byte, low_byte, short_of, split_short, Memory};
use crate::device::{Device, DeviceEvent};
use vstd::prelude::*;

verus! {

/// One of the two layers that the screen is composed of.
#[derive(Clone, Copy, Debug, PartialEq, Eq, Structural)]
pub enum Layer {
    Foreground,
    Background,
}

/// The way in which a fill spreads from its starting point along one axis.
#[derive(Clone, Copy, Debug, PartialEq, Eq, Structural)]
pub enum FillDirection {
    /// From the starting point up to the edge of the screen.
    Positive,
    /// From the edge at zero up to, but without, the starting point.
    Negative,
}

/// `short` with its high byte replaced by `new`.
pub fn with_high_byte(short: u16, new: u8) -> (r: u16)
    ensures
        r == short_of(new, low_byte(short)),
{
    assert((short & 0x00ff) | ((new as u16) << 8) == (new as u16) * 0x100 + short % 0x100)
        by (bit_vector);
    (short & 0x00ff) | ((new as u16) << 8)
}

/// `short` with its low byte replaced by `new`.
pub fn with_low_byte(short: u16, new: u8) -> (r: u16)
    ensures
        r == short_of(high_byte(short), new),
{
    assert((short & 0xff00) | (new as u16) == (short / 0x100) * 0x100 + (new as u16))
        by (bit_vector);
    (short & 0xff00) | (new as u16)
}

/// Replaces the high byte of `short` by `new`.
pub fn set_high_byte(short: &mut u16, new: u8)
    ensures
        *final(short) == short_of(new, low_byte(*old(short))),
{
    *short = with_high_byte(*short, new);
}

/// Replaces the low byte of `short` by `new`.
pub fn set_low_byte(short: &mut u16, new: u8)
    ensures
        *final(short) == short_of(high_byte(*old(short)), new),
{
    *short = with_low_byte(*short, new);
}

/// Whether bit `index` of `byte` is set, bit 0 being the lowest.
pub open spec fn bit(byte: u8, index: nat) -> bool {
    (byte as int / vstd::arithmetic::power2::pow2(index) as int) % 2 == 1
}

/// The eight bits of a byte, the highest first.
pub fn explode_byte(byte: u8) -> (bits: (bool, bool, bool, bool, bool, bool, bool, bool))
    ensures
        bits == (
            bit(byte, 7),
            bit(byte, 6),
            bit(byte, 5),
            bit(byte, 4),
            bit(byte, 3),
            bit(byte, 2),
            bit(byte, 1),
            bit(byte, 0),
        ),
{
    proof {
        vstd::arithmetic::power2::lemma2_to64();
        assert((byte & 0b1000_0000 != 0) == ((byte / 128) % 2 == 1)) by (bit_vector);
        assert((byte & 0b0100_0000 != 0) == ((byte / 64) % 2 == 1)) by (bit_vector);
        assert((byte & 0b0010_0000 != 0) == ((byte / 32) % 2 == 1)) by (bit_vector);
        assert((byte & 0b0001_0000 != 0) == ((byte / 16) % 2 == 1)) by (bit_vector);
        assert((byte & 0b0000_1000 != 0) == ((byte / 8) % 2 == 1)) by (bit_vector);
        assert((byte & 0b0000_0100 != 0) == ((byte / 4) % 2 == 1)) by (bit_vector);
        assert((byte & 0b0000_0010 != 0) == ((byte / 2) % 2 == 1)) by (bit_vector);
        assert((byte & 0b0000_0001 != 0) == ((byte / 1) % 2 == 1)) by (bit_vector);
    }
    (
        byte & 0b1000_0000 != 0,
        byte & 0b0100_0000 != 0,
        byte & 0b0010_0000 != 0,
        byte & 0b0001_0000 != 0,
        byte & 0b0000_1000 != 0,
        byte & 0b0000_0100 != 0,
        byte & 0b0000_0010 != 0,
        byte & 0b0000_0001 != 0,
    )
}

/// The high and the low four bits of a byte.
pub fn split_nibbles(byte: u8) -> (nibbles: (u8, u8))
    ensures
        nibbles.0 == byte / 0x10,
        nibbles.1 == byte % 0x10,
{
    assert((byte & 0xf0) >> 4 == byte / 0x10) by (bit_vector);
    assert(byte & 0x0f == byte % 0x10) by (bit_vector);
    ((byte & 0xf0) >> 4, byte & 0x0f)
}

/// A four-bit channel value spread over eight bits: the nibble twice.
pub open spec fn scaled(value: u8) -> u8 {
    (value << 4) | value
}

/// On a nibble, scaling is multiplying by seventeen: zero stays zero and
/// fifteen becomes 255.
pub proof fn lemma_scaled_nibble(value: u8)
    requires
        value < 0x10,
    ensures
        scaled(value) == 17 * value,
{
    assert(value < 0x10 ==> (value << 4) | value == 17 * value) by (bit_vector);
}

/// The byte of `word` that starts at bit `shift`.
pub open spec fn channel(word: u32, shift: u32) -> u8 {
    ((word >> shift) & 0xff) as u8
}

/// `word` with the byte that starts at bit `shift` replaced by `byte`.
pub open spec fn with_channel(word: u32, shift: u32, byte: u8) -> u32 {
    (word & !(0xffu32 << shift)) | ((byte as u32) << shift)
}

/// Replacing one byte of a word changes that byte and none of the other three.
pub proof fn lemma_with_channel(word: u32, shift: u32, byte: u8, other: u32)
    requires
        shift == 0 || shift == 8 || shift == 16 || shift == 24,
        other == 0 || other == 8 || other == 16 || other == 24,
    ensures
        channel(with_channel(word, shift, byte), shift) == byte,
        other != shift ==> channel(with_channel(word, shift, byte), other) == channel(word, other),
{
    assert((shift == 0 || shift == 8 || shift == 16 || shift == 24) ==> ((((word & !(0xffu32
        << shift)) | ((byte as u32) << shift)) >> shift) & 0xff) as u8 == byte) by (bit_vector);
    assert((shift == 0 || shift == 8 || shift == 16 || shift == 24) && (other == 0 || other == 8
        || other == 16 || other == 24) && other != shift ==> ((((word & !(0xffu32 << shift)) | ((
    byte as u32) << shift)) >> other) & 0xff) as u8 == ((word >> other) & 0xff) as u8)
        by (bit_vector);
}

/// A Varvara-compatible colour.
///
/// This holds a 0RGB word with 8 bits per channel, but it is in fact limited
/// to showing Varvara's colour space, with 4 bits per channel instead of 8.
#[derive(Clone, Copy, PartialEq, Eq, Debug, Structural)]
pub struct Colour(pub u32);

impl Colour {
    /// Black.
    pub fn new() -> (colour: Colour)
        ensures
            colour.0 == 0,
    {
        Self(0)
    }

    /// Sets the second byte of the word, bits 16 to 23, to `value` scaled.
    pub fn set_red_from_nibble(&mut self, value: u8)
        ensures
            final(self).0 == with_channel(old(self).0, 16, scaled(value)),
    {
        let scaled = (value << 4) | value;
        self.0 = (self.0 & !(0xffu32 << 16)) | ((scaled as u32) << 16);
    }

    /// Sets the third byte of the word, bits 8 to 15, to `value` scaled.
    pub fn set_blue_from_nibble(&mut self, value: u8)
        ensures
            final(self).0 == with_channel(old(self).0, 8, scaled(value)),
    {
        let scaled = (value << 4) | value;
        self.0 = (self.0 & !(0xffu32 << 8)) | ((scaled as u32) << 8);
    }

    /// Sets the last byte of the word, bits 0 to 7, to `value` scaled.
    pub fn set_green_from_nibble(&mut self, value: u8)
        ensures
            final(self).0 == with_channel(old(self).0, 0, scaled(value)),
    {
        let scaled = (value << 4) | value;
        self.0 = (self.0 & !(0xffu32 << 0)) | ((scaled as u32) << 0);
    }

    /// The colour as a 0RGB word.
    pub fn to_0rgb(self) -> (word: u32)
        ensures
            word == self.0,
    {
        self.0
    }
}

/// The screen as a mathematical value.
pub struct ScreenView {
    pub vector: Option<u16>,
    pub width: u16,
    pub height: u16,
    pub colours: Seq<Colour>,
    pub background: Seq<u32>,
    pub foreground: Seq<u32>,
    pub x: u16,
    pub y: u16,
    pub sprite_addr: u16,
}

/// Width and height of the window that is opened when a screen of the given
/// size is asked for: neither is ever zero.
pub open spec fn window_size(width: u16, height: u16) -> (u16, u16) {
    (
        if width == 0 {
            1
        } else {
            width
        },
        if height == 0 {
            1
        } else {
            height
        },
    )
}

/// Whether a coordinate lies where a fill along one axis reaches, on a
/// screen that is `extent` wide, or high, along that axis.
pub open spec fn reached(at: int, start: u16, direction: FillDirection, extent: u16) -> bool {
    match direction {
        FillDirection::Positive => start <= at < extent,
        FillDirection::Negative => 0 <= at < start,
    }
}

impl ScreenView {
    /// Both frame buffers hold one word for each pixel of the window, row by row.
    pub open spec fn well_formed(self) -> bool {
        &&& self.colours.len() == 4
        &&& self.width >= 1
        &&& self.height >= 1
        &&& self.background.len() == self.width * self.height
        &&& self.foreground.len() == self.width * self.height
    }

    /// The frame buffer of a layer.
    pub open spec fn layer(self, layer: Layer) -> Seq<u32> {
        match layer {
            Layer::Foreground => self.foreground,
            Layer::Background => self.background,
        }
    }

    /// The screen with the frame buffer of a layer replaced.
    pub open spec fn with_layer(self, layer: Layer, buffer: Seq<u32>) -> ScreenView {
        match layer {
            Layer::Foreground => ScreenView { foreground: buffer, ..self },
            Layer::Background => ScreenView { background: buffer, ..self },
        }
    }

    /// The screen with both frame buffers filled with colour 0.
    pub open spec fn reset(self) -> ScreenView {
        let blank = Seq::new((self.width * self.height) as nat, |i: int| self.colours[0].0);
        ScreenView { background: blank, foreground: blank, ..self }
    }

    /// The screen after its window was replaced by one of the given size.
    pub open spec fn resized(self, width: u16, height: u16) -> ScreenView {
        let size = window_size(width, height);
        (ScreenView { width: size.0, height: size.1, ..self }).reset()
    }

    /// What the window shows: the foreground, and the background wherever the
    /// foreground holds colour 0.
    pub open spec fn overlay(self) -> Seq<u32> {
        Seq::new(
            if self.background.len() <= self.foreground.len() {
                self.background.len()
            } else {
                self.foreground.len()
            },
            |i: int|
                if self.foreground[i] == self.colours[0].0 {
                    self.background[i]
                } else {
                    self.foreground[i]
                },
        )
    }

    /// The screen after the pixel at `(x, y)` of a layer was painted. A
    /// pixel beyond the screen, or beyond the frame buffer, is not painted.
    pub open spec fn drawn(self, x: u16, y: u16, colour: Colour, layer: Layer) -> ScreenView {
        if x >= self.width || y >= self.height || y * self.width + x >= self.layer(layer).len() {
            self
        } else {
            self.with_layer(layer, self.layer(layer).update(y * self.width + x, colour.0))
        }
    }

    /// The screen after a fill of a layer that starts at `(x, y)`: every
    /// pixel that both directions reach is painted. A fill that starts
    /// beyond the screen paints nothing.
    pub open spec fn filled(
        self,
        x: u16,
        y: u16,
        x_dir: FillDirection,
        y_dir: FillDirection,
        colour: Colour,
        layer: Layer,
    ) -> ScreenView {
        if x >= self.width || y >= self.height {
            self
        } else {
            self.with_layer(
                layer,
                Seq::new(
                    self.layer(layer).len(),
                    |i: int|
                        if reached(i % (self.width as int), x, x_dir, self.width) && reached(
                            i / (self.width as int),
                            y,
                            y_dir,
                            self.height,
                        ) {
                            colour.0
                        } else {
                            self.layer(layer)[i]
                        },
                ),
            )
        }
    }
}

/// The screen of the device: its ports and its two frame buffers. `width`
/// and `height` are the size of the window that shows it.
pub struct Screen {
    pub vector: Option<u16>,
    pub width: u16,
    pub height: u16,
    pub colours: [Colour; 4],
    pub framebuffer_background: Vec<u32>,
    pub framebuffer_foreground: Vec<u32>,
    pub x: u16,
    pub y: u16,
    pub sprite_addr: u16,
}

impl View for Screen {
    type V = ScreenView;

    open spec fn view(&self) -> ScreenView {
        ScreenView {
            vector: self.vector,
            width: self.width,
            height: self.height,
            colours: self.colours@,
            background: self.framebuffer_background@,
            foreground: self.framebuffer_foreground@,
            x: self.x,
            y: self.y,
            sprite_addr: self.sprite_addr,
        }
    }
}

/// A screen of `width` by `height` pixels has at most as many pixels as a
/// `u32` can count, and the pixel at `(x, y)` has its place among them.
pub proof fn lemma_pixel_index(width: u16, height: u16, x: u16, y: u16)
    requires
        x < width,
        y < height,
    ensures
        0 <= y * width + x < width * height <= 0xfffe_0001,
        (y * width + x) % (width as int) == x,
        (y * width + x) / (width as int) == y,
{
    assert(y * width + x < width * height <= 0xfffe_0001) by (nonlinear_arith)
        requires
            0 <= x < width <= 0xffff,
            0 <= y < height <= 0xffff,
    ;
    vstd::arithmetic::div_mod::lemma_fundamental_div_mod_converse(
        y * width + x,
        width as int,
        y as int,
        x as int,
    );
}

/// A frame buffer during a fill that goes column by column: the columns from
/// `x_from` up to `x` are painted between the rows `y_from` and `y_to`, and
/// column `x` between the rows `y_from` and `y`.
pub open spec fn painted(
    buffer: Seq<u32>,
    width: u16,
    x_from: u16,
    x: u16,
    y_from: u16,
    y_to: u16,
    y: u16,
    colour: Colour,
) -> Seq<u32> {
    Seq::new(
        buffer.len(),
        |i: int|
            {
                let column = i % (width as int);
                let row = i / (width as int);
                if (x_from <= column < x && y_from <= row < y_to) || (column == x && y_from <= row
                    < y) {
                    colour.0
                } else {
                    buffer[i]
                }
            },
    )
}

/// Painting the pixel at `(x, y)`, where the frame buffer holds it, takes a
/// fill one row further down column `x`.
proof fn lemma_painted_pixel(
    buffer: Seq<u32>,
    width: u16,
    x_from: u16,
    x: u16,
    y_from: u16,
    y_to: u16,
    y: u16,
    colour: Colour,
)
    requires
        x < width,
        y_from <= y < y_to,
    ensures
        painted(buffer, width, x_from, x, y_from, y_to, (y + 1) as u16, colour) == if y * width
            + x < buffer.len() {
            painted(buffer, width, x_from, x, y_from, y_to, y, colour).update(
                y * width + x,
                colour.0,
            )
        } else {
            painted(buffer, width, x_from, x, y_from, y_to, y, colour)
        },
{
    lemma_pixel_index(width, (y + 1) as u16, x, y);
    let was = painted(buffer, width, x_from, x, y_from, y_to, y, colour);
    let now = painted(buffer, width, x_from, x, y_from, y_to, (y + 1) as u16, colour);
    let at = y * width + x;
    let next = if at < buffer.len() {
        was.update(at, colour.0)
    } else {
        was
    };
    assert forall|i: int| 0 <= i < buffer.len() implies next[i] == now[i] by {
        vstd::arithmetic::div_mod::lemma_fundamental_div_mod(i, width as int);
        if i != at && i % (width as int) == x && i / (width as int) == y {
            assert(i == (width as int) * (y as int) + x);
            assert((width as int) * (y as int) == y * width) by (nonlinear_arith);
        }
    }
    assert(next =~= now);
}

impl Screen {
    /// The view of a new screen: 800 by 600 pixels, all black, no vector set.
    pub open spec fn new_view() -> ScreenView {
        ScreenView {
            vector: None,
            width: 800,
            height: 600,
            colours: Seq::new(4, |i: int| Colour(0)),
            background: Seq::new(480_000, |i: int| 0u32),
            foreground: Seq::new(480_000, |i: int| 0u32),
            x: 0,
            y: 0,
            sprite_addr: 0,
        }
    }

    /// A screen of 800 by 600 pixels, all black, with no vector set.
    pub fn new() -> (screen: Screen)
        ensures
            screen@.well_formed(),
            screen@ == Screen::new_view(),
    {
        let mut screen = Screen {
            vector: None,
            width: 800,
            height: 600,
            colours: [Colour::new();4],
            framebuffer_background: vec![],
            framebuffer_foreground: vec![],
            x: 0,
            y: 0,
            sprite_addr: 0,
        };
        assert(screen.colours@[0] == Colour(0));
        assert(screen.width * screen.height == 480_000) by (nonlinear_arith)
            requires
                screen.width == 800,
                screen.height == 600,
        ;
        screen.reset_framebuffer();
        assert(screen@.colours =~= Seq::new(4, |i: int| Colour(0)));
        assert(screen@.background =~= Seq::new(480_000, |i: int| 0u32));
        assert(screen@.foreground =~= Seq::new(480_000, |i: int| 0u32));
        screen
    }

    /// Width and height of the window.
    pub fn get_size(&self) -> (size: (u16, u16))
        ensures
            size == (self.width, self.height),
    {
        (self.width, self.height)
    }

    /// Takes on the size of a new window, which the host is to open in place
    /// of the old one, and clears both frame buffers. A width or height of
    /// zero is taken as one.
    pub fn set_size(&mut self, width: u16, height: u16)
        ensures
            final(self)@ == old(self)@.resized(width, height),
            final(self)@.well_formed(),
    {
        let (width, height) = Self::create_window(width, height);
        self.width = width;
        self.height = height;

        // Ensure there's no stale framebuffer
        self.reset_framebuffer();
    }

    /// Resizes the window to what `func` makes of its present size.
    pub fn map_size<F: FnOnce(u16, u16) -> (u16, u16)>(&mut self, func: F)
        requires
            func.requires((old(self).width, old(self).height)),
        ensures
            exists|size: (u16, u16)|
                {
                    &&& #[trigger] func.ensures((old(self).width, old(self).height), size)
                    &&& final(self)@ == old(self)@.resized(size.0, size.1)
                },
            final(self)@.well_formed(),
    {
        let (w, h) = self.get_size();
        let (w, h) = func(w, h);
        self.set_size(w, h);
    }

    /// The size of the window to open for a screen of the given size.
    pub fn create_window(width: u16, height: u16) -> (size: (u16, u16))
        ensures
            size == window_size(width, height),
            size.0 >= 1,
            size.1 >= 1,
    {
        let mut width = width;
        let mut height = height;
        if width == 0 {
            width = 1
        }
        if height == 0 {
            height = 1
        }
        (width, height)
    }

    /// Composes the frame that the window is to show.
    pub fn update(&self) -> (frame: Vec<u32>)
        ensures
            frame@ == self@.overlay(),
    {
        self.overlay_framebuffers()
    }

    fn reset_framebuffer(&mut self)
        ensures
            final(self)@ == old(self)@.reset(),
            old(self).width >= 1 && old(self).height >= 1 ==> final(self)@.well_formed(),
    {
        // Each frame starts off filled with colour 0
        let colour = self.colours[0].to_0rgb();
        let (width, height) = self.get_size();

        assert(width * height <= 0xfffe_0001) by (nonlinear_arith)
            requires
                0 <= width <= 0xffff,
                0 <= height <= 0xffff,
        ;
        let size = (width as usize) * (height as usize);

        self.framebuffer_background = vec![colour; size];
        self.framebuffer_foreground = vec![colour; size];
        assert(self@.background =~= old(self)@.reset().background);
        assert(self@.foreground =~= old(self)@.reset().foreground);
    }

    fn overlay_framebuffers(&self) -> (frame: Vec<u32>)
        ensures
            frame@ == self@.overlay(),
    {
        let transparency = self.colours[0].to_0rgb();
        let count = if self.framebuffer_background.len() <= self.framebuffer_foreground.len() {
            self.framebuffer_background.len()
        } else {
            self.framebuffer_foreground.len()
        };

        let mut frame: Vec<u32> = Vec::new();
        let mut i: usize = 0;
        while i < count
            invariant
                transparency == self.colours[0].0,
                count == self@.overlay().len(),
                count <= self.framebuffer_background.len(),
                count <= self.framebuffer_foreground.len(),
                i <= count,
                frame@ == self@.overlay().subrange(0, i as int),
            decreases count - i,
        {
            let bg = self.framebuffer_background[i];
            let fg = self.framebuffer_foreground[i];
            // colour 0 is transparent on the foreground
            frame.push(if fg == transparency { bg } else { fg });
            i += 1;
            assert(frame@ =~= self@.overlay().subrange(0, i as int));
        }
        assert(frame@ =~= self@.overlay());
        frame
    }

    /// Paints the pixel at `(x, y)` of a layer. Painting beyond the screen does nothing.
    pub fn draw_pixel(&mut self, x: u16, y: u16, c: Colour, layer: Layer)
        ensures
            final(self)@ == old(self)@.drawn(x, y, c, layer),
            old(self)@.well_formed() ==> final(self)@.well_formed(),
    {
        // Ignore off-screen painting
        let (width, height) = self.get_size();
        if x >= width || y >= height {
            return ;
        }
        proof {
            lemma_pixel_index(width, height, x, y);
        }

        let index = y as usize * width as usize + x as usize;
        let word = c.to_0rgb();
        let buffer = self.get_framebuffer(layer);
        if index < buffer.len() {
            buffer[index] = word;
        }
    }

    /// Paints every pixel of a layer that a fill from `(x_start, y_start)`
    /// reaches. A fill that starts beyond the screen does nothing.
    pub fn fill_pixels(
        &mut self,
        x_start: u16,
        y_start: u16,
        x_dir: FillDirection,
        y_dir: FillDirection,
        c: Colour,
        layer: Layer,
    )
        ensures
            final(self)@ == old(self)@.filled(x_start, y_start, x_dir, y_dir, c, layer),
            old(self)@.well_formed() ==> final(self)@.well_formed(),
    {
        // Ignore fill if it starts off-screen
        let (width, height) = self.get_size();
        if x_start >= width || y_start >= height {
            return ;
        }
        let (x_from, x_to) = match x_dir {
            FillDirection::Positive => (x_start, width),
            FillDirection::Negative => (0, x_start),
        };
        let (y_from, y_to) = match y_dir {
            FillDirection::Positive => (y_start, height),
            FillDirection::Negative => (0, y_start),
        };
        let ghost before = self@;
        let ghost buffer = before.layer(layer);
        assert(painted(buffer, width, x_from, x_from, y_from, y_to, y_from, c) =~= buffer);

        let mut x = x_from;
        while x < x_to
            invariant
                buffer == before.layer(layer),
                width == before.width,
                height == before.height,
                x_from <= x <= x_to <= width,
                y_from <= y_to <= height,
                self@ == before.with_layer(
                    layer,
                    painted(buffer, width, x_from, x, y_from, y_to, y_from, c),
                ),
            decreases x_to - x,
        {
            let mut y = y_from;
            while y < y_to
                invariant
                    buffer == before.layer(layer),
                    width == before.width,
                    height == before.height,
                    x_from <= x < x_to <= width,
                    y_from <= y <= y_to <= height,
                    self@ == before.with_layer(
                        layer,
                        painted(buffer, width, x_from, x, y_from, y_to, y, c),
                    ),
                decreases y_to - y,
            {
                self.draw_pixel(x, y, c, layer);
                proof {
                    lemma_painted_pixel(buffer, width, x_from, x, y_from, y_to, y, c);
                }
                y += 1;
            }
            assert(painted(buffer, width, x_from, x, y_from, y_to, y_to, c) =~= painted(
                buffer,
                width,
                x_from,
                (x + 1) as u16,
                y_from,
                y_to,
                y_from,
                c,
            ));
            x += 1;
        }
        assert(painted(buffer, width, x_from, x_to, y_from, y_to, y_from, c) =~= before.filled(
            x_start,
            y_start,
            x_dir,
            y_dir,
            c,
            layer,
        ).layer(layer));
    }

    fn get_framebuffer(&mut self, layer: Layer) -> (buffer: &mut Vec<u32>)
        ensures
            buffer@ == old(self)@.layer(layer),
            final(self)@ == old(self)@.with_layer(layer, final(buffer)@),
    {
        match layer {
            Layer::Foreground => &mut self.framebuffer_foreground,
            Layer::Background => &mut self.framebuffer_background,
        }
    }
}

/// The device as a mathematical value.
pub struct VarvaraView {
    pub screen: ScreenView,
    pub console: Seq<u8>,
    pub exit_code: Option<u8>,
    pub unsupported: Option<u8>,
    pub window_open: bool,
}

/// `colours` with one channel of the colours `first` and `first + 1` set from
/// the high and the low nibble of `byte`. The channel starts at bit `shift`.
pub open spec fn with_channels(colours: Seq<Colour>, first: int, shift: u32, byte: u8) -> Seq<
    Colour,
> {
    colours.update(
        first,
        Colour(with_channel(colours[first].0, shift, scaled((byte / 0x10) as u8))),
    ).update(
        first + 1,
        Colour(with_channel(colours[first + 1].0, shift, scaled((byte % 0x10) as u8))),
    )
}

impl VarvaraView {
    /// The screen is well formed.
    pub open spec fn well_formed(self) -> bool {
        self.screen.well_formed()
    }

    /// Whether the program asked to exit or wrote to a port that the device
    /// does not have. From then on the device takes no more writes.
    pub open spec fn halted(self) -> bool {
        self.exit_code is Some || self.unsupported is Some
    }

    /// What a read of a port yields: the size of the window and the
    /// position of the pen can be read, everything else reads as zero.
    pub open spec fn byte_at(self, addr: u8) -> u8 {
        match addr {
            // .Screen/width
            0x22 => high_byte(self.screen.width),
            0x23 => low_byte(self.screen.width),
            // .Screen/height
            0x24 => high_byte(self.screen.height),
            0x25 => low_byte(self.screen.height),
            // .Screen/x
            0x28 => high_byte(self.screen.x),
            0x29 => low_byte(self.screen.x),
            // .Screen/y
            0x2a => high_byte(self.screen.y),
            0x2b => low_byte(self.screen.y),
            _ => 0,
        }
    }

    /// The device with its screen replaced.
    pub open spec fn with_screen(self, screen: ScreenView) -> VarvaraView {
        VarvaraView { screen, ..self }
    }

    /// The vector of the screen, or zero where none is set.
    pub open spec fn vector_or_zero(self) -> u16 {
        match self.screen.vector {
            Some(vector) => vector,
            None => 0,
        }
    }

    /// The device after a write to the pixel port: bit 7 asks for a fill,
    /// bit 6 names the foreground, bits 5 and 4 turn the fill around along
    /// the y and the x axis, and bits 1 and 0 name the colour.
    pub open spec fn pixel_written(self, byte: u8) -> VarvaraView {
        let colour = self.screen.colours[if bit(byte, 1) {
            2int
        } else {
            0int
        } + if bit(byte, 0) {
            1int
        } else {
            0int
        }];
        let layer = if bit(byte, 6) {
            Layer::Foreground
        } else {
            Layer::Background
        };
        if bit(byte, 7) {
            let x_dir = if bit(byte, 4) {
                FillDirection::Negative
            } else {
                FillDirection::Positive
            };
            let y_dir = if bit(byte, 5) {
                FillDirection::Negative
            } else {
                FillDirection::Positive
            };
            self.with_screen(
                self.screen.filled(self.screen.x, self.screen.y, x_dir, y_dir, colour, layer),
            )
        } else {
            self.with_screen(self.screen.drawn(self.screen.x, self.screen.y, colour, layer))
        }
    }

    /// The device after `byte` was written to the port `addr`.
    pub open spec fn written(self, addr: u8, byte: u8) -> VarvaraView {
        let screen = self.screen;
        if self.halted() {
            self
        } else {
            match addr {
                // .System/red
                0x08 => self.with_screen(
                    ScreenView { colours: with_channels(screen.colours, 0, 16, byte), ..screen },
                ),
                0x09 => self.with_screen(
                    ScreenView { colours: with_channels(screen.colours, 2, 16, byte), ..screen },
                ),
                // .System/blue
                0x0a => self.with_screen(
                    ScreenView { colours: with_channels(screen.colours, 0, 8, byte), ..screen },
                ),
                0x0b => self.with_screen(
                    ScreenView { colours: with_channels(screen.colours, 2, 8, byte), ..screen },
                ),
                // .System/green
                0x0c => self.with_screen(
                    ScreenView { colours: with_channels(screen.colours, 0, 0, byte), ..screen },
                ),
                0x0d => self.with_screen(
                    ScreenView { colours: with_channels(screen.colours, 2, 0, byte), ..screen },
                ),
                // .System/state
                0x0f => if byte != 0 {
                    VarvaraView { exit_code: Some((byte % 0x80) as u8), ..self }
                } else {
                    self
                },
                // .Console/write
                0x18 => VarvaraView { console: self.console.push(byte), ..self },
                // .Screen/vector
                0x20 => self.with_screen(
                    ScreenView {
                        vector: Some(short_of(byte, low_byte(self.vector_or_zero()))),
                        ..screen
                    },
                ),
                0x21 => self.with_screen(
                    ScreenView {
                        vector: Some(short_of(high_byte(self.vector_or_zero()), byte)),
                        ..screen
                    },
                ),
                // .Screen/width
                0x22 => self.with_screen(
                    screen.resized(short_of(byte, low_byte(screen.width)), screen.height),
                ),
                0x23 => self.with_screen(
                    screen.resized(short_of(high_byte(screen.width), byte), screen.height),
                ),
                // .Screen/height
                0x24 => self.with_screen(
                    screen.resized(screen.width, short_of(byte, low_byte(screen.height))),
                ),
                0x25 => self.with_screen(
                    screen.resized(screen.width, short_of(high_byte(screen.height), byte)),
                ),
                // .Screen/x
                0x28 => self.with_screen(
                    ScreenView { x: short_of(byte, low_byte(screen.x)), ..screen },
                ),
                0x29 => self.with_screen(
                    ScreenView { x: short_of(high_byte(screen.x), byte), ..screen },
                ),
                // .Screen/y
                0x2a => self.with_screen(
                    ScreenView { y: short_of(byte, low_byte(screen.y)), ..screen },
                ),
                0x2b => self.with_screen(
                    ScreenView { y: short_of(high_byte(screen.y), byte), ..screen },
                ),
                // .Screen/addr
                0x2c => self.with_screen(
                    ScreenView {
                        sprite_addr: short_of(byte, low_byte(screen.sprite_addr)),
                        ..screen
                    },
                ),
                0x2d => self.with_screen(
                    ScreenView {
                        sprite_addr: short_of(high_byte(screen.sprite_addr), byte),
                        ..screen
                    },
                ),
                // .Screen/pixel
                0x2e => self.pixel_written(byte),
                // .Screen/sprite: sprites are not drawn
                0x2f => self,
                _ => VarvaraView { unsupported: Some(addr), ..self },
            }
        }
    }

    /// What the device asks of the machine once the program has halted: to
    /// go on at the screen vector while there is one and the window is open,
    /// and to exit otherwise.
    pub open spec fn next_event(self) -> DeviceEvent {
        if self.halted() || !self.window_open {
            DeviceEvent::Exit
        } else {
            match self.screen.vector {
                Some(vector) => DeviceEvent::Vector(vector),
                None => DeviceEvent::Exit,
            }
        }
    }
}

/// The Varvara device as far as it can be told without a window: ports,
/// frame buffers, and a record of what the program asked of the host.
///
/// The host shows `screen.update()` in a window of the screen's size, prints
/// what `take_console` hands out, ends the process with `exit_code` once that
/// is set, and clears `window_open` when its window was closed.
pub struct VarvaraDevice {
    pub screen: Screen,
    /// Bytes written to the console port that the host has not taken yet.
    pub console: Vec<u8>,
    /// The exit code that the program asked to end with, if it did.
    pub exit_code: Option<u8>,
    /// The first port written to that the device does not have, if any.
    pub unsupported: Option<u8>,
    /// Whether the host's window is still open.
    pub window_open: bool,
}

impl View for VarvaraDevice {
    type V = VarvaraView;

    open spec fn view(&self) -> VarvaraView {
        VarvaraView {
            screen: self.screen@,
            console: self.console@,
            exit_code: self.exit_code,
            unsupported: self.unsupported,
            window_open: self.window_open,
        }
    }
}

impl VarvaraDevice {
    /// A device with a new screen, an open window and nothing asked of the host.
    pub fn new() -> (device: VarvaraDevice)
        ensures
            device@.well_formed(),
            device.screen@ == Screen::new_view(),
            device@.console == Seq::<u8>::empty(),
            device@.exit_code is None,
            device@.unsupported is None,
            device@.window_open,
    {
        VarvaraDevice {
            screen: Screen::new(),
            console: Vec::new(),
            exit_code: None,
            unsupported: None,
            window_open: true,
        }
    }

    /// Hands out the bytes written to the console since the last call.
    pub fn take_console(&mut self) -> (bytes: Vec<u8>)
        ensures
            bytes@ == old(self)@.console,
            final(self)@ == (VarvaraView { console: Seq::empty(), ..old(self)@ }),
    {
        let mut bytes: Vec<u8> = Vec::new();
        bytes.append(&mut self.console);
        bytes
    }

    /// Sets one channel of the colours `first` and `first + 1` from the high
    /// and the low nibble of `byte`.
    fn set_channels(&mut self, first: usize, shift: u32, byte: u8)
        requires
            first == 0 || first == 2,
            shift == 0 || shift == 8 || shift == 16,
        ensures
            final(self)@ == old(self)@.with_screen(
                ScreenView {
                    colours: with_channels(old(self)@.screen.colours, first as int, shift, byte),
                    ..old(self)@.screen
                },
            ),
    {
        let (hi, lo) = split_nibbles(byte);
        let mut upper = self.screen.colours[first];
        let mut lower = self.screen.colours[first + 1];
        if shift == 16 {
            upper.set_red_from_nibble(hi);
            lower.set_red_from_nibble(lo);
        } else if shift == 8 {
            upper.set_blue_from_nibble(hi);
            lower.set_blue_from_nibble(lo);
        } else {
            upper.set_green_from_nibble(hi);
            lower.set_green_from_nibble(lo);
        }
        self.screen.colours[first] = upper;
        self.screen.colours[first + 1] = lower;
    }
}

impl Memory for VarvaraDevice {
    type AddressSpace = u8;

    open spec fn byte_at(&self, addr: u8) -> u8 {
        self@.byte_at(addr)
    }

    open spec fn byte_written(&self, addr: u8, byte: u8, after: &Self) -> bool {
        after@ == self@.written(addr, byte)
    }

    fn read_byte(&self, addr: u8) -> (byte: u8) {
        match addr {
            // .Screen/width
            0x22 => split_short(self.screen.get_size().0).0,
            0x23 => split_short(self.screen.get_size().0).1,
            // .Screen/height
            0x24 => split_short(self.screen.get_size().1).0,
            0x25 => split_short(self.screen.get_size().1).1,
            // .Screen/x
            0x28 => split_short(self.screen.x).0,
            0x29 => split_short(self.screen.x).1,
            // .Screen/y
            0x2a => split_short(self.screen.y).0,
            0x2b => split_short(self.screen.y).1,
            _ => 0,
        }
    }

    fn write_byte(&mut self, addr: u8, byte: u8) {
        if self.exit_code.is_some() || self.unsupported.is_some() {
            return ;
        }
        // See: https://wiki.xxiivv.com/site/varvara.html

        match addr {
            // .System/red
            0x08 => self.set_channels(0, 16, byte),
            0x09 => self.set_channels(2, 16, byte),
            // .System/blue
            0x0a => self.set_channels(0, 8, byte),
            0x0b => self.set_channels(2, 8, byte),
            // .System/green
            0x0c => self.set_channels(0, 0, byte),
            0x0d => self.set_channels(2, 0, byte),
            // .System/state
            0x0f => {
                if byte != 0 {
                    assert(byte & 0x7f == byte % 0x80) by (bit_vector);
                    let exit_code = byte & 0x7f;
                    self.exit_code = Some(exit_code);
                }
            },
            // .Console/write
            0x18 => {
                self.console.push(byte);
            },
            // .Screen/vector
            0x20 => {
                let vector = match self.screen.vector {
                    Some(vector) => vector,
                    None => 0,
                };
                self.screen.vector = Some(with_high_byte(vector, byte));
            },
            0x21 => {
                let vector = match self.screen.vector {
                    Some(vector) => vector,
                    None => 0,
                };
                self.screen.vector = Some(with_low_byte(vector, byte));
            },
            // .Screen/width
            0x22 => {
                let resize = |w: u16, h: u16| -> (size: (u16, u16))
                    ensures
                        size == (short_of(byte, low_byte(w)), h),
                    { (with_high_byte(w, byte), h) };
                self.screen.map_size(resize);
            },
            0x23 => {
                let resize = |w: u16, h: u16| -> (size: (u16, u16))
                    ensures
                        size == (short_of(high_byte(w), byte), h),
                    { (with_low_byte(w, byte), h) };
                self.screen.map_size(resize);
            },
            // .Screen/height
            0x24 => {
                let resize = |w: u16, h: u16| -> (size: (u16, u16))
                    ensures
                        size == (w, short_of(byte, low_byte(h))),
                    { (w, with_high_byte(h, byte)) };
                self.screen.map_size(resize);
            },
            0x25 => {
                let resize = |w: u16, h: u16| -> (size: (u16, u16))
                    ensures
                        size == (w, short_of(high_byte(h), byte)),
                    { (w, with_low_byte(h, byte)) };
                self.screen.map_size(resize);
            },
            // .Screen/x
            0x28 => set_high_byte(&mut self.screen.x, byte),
            0x29 => set_low_byte(&mut self.screen.x, byte),
            // .Screen/y
            0x2a => set_high_byte(&mut self.screen.y, byte),
            0x2b => set_low_byte(&mut self.screen.y, byte),
            // .Screen/addr
            0x2c => set_high_byte(&mut self.screen.sprite_addr, byte),
            0x2d => set_low_byte(&mut self.screen.sprite_addr, byte),
            // .Screen/pixel
            0x2e => {
                let (fill, layer, flip_y, flip_x, _, _, c1, c0) = explode_byte(byte);

                // 2-bit number is a colour index
                let upper: usize = if c1 { 2 } else { 0 };
                let lower: usize = if c0 { 1 } else { 0 };
                let colour = self.screen.colours[upper + lower];
                let layer = if layer { Layer::Foreground } else { Layer::Background };

                if fill {
                    let x_dir = if flip_x { FillDirection::Negative } else { FillDirection::Positive };
                    let y_dir = if flip_y { FillDirection::Negative } else { FillDirection::Positive };

                    let x = self.screen.x;
                    let y = self.screen.y;
                    self.screen.fill_pixels(x, y, x_dir, y_dir, colour, layer);
                } else {
                    let x = self.screen.x;
                    let y = self.screen.y;
                    self.screen.draw_pixel(x, y, colour, layer);
                }
            },
            // .Screen/sprite
            0x2f => {},
            _ => {
                self.unsupported = Some(addr);
            },
        }
    }
}

impl Device for VarvaraDevice {
    /// Waiting leaves the device as it is and yields its next event.
    open spec fn event_awaited(&self, event: DeviceEvent, after: &Self) -> bool {
        event == self@.next_event() && *after == *self
    }

    fn wait_for_event(&mut self) -> (event: DeviceEvent) {
        if self.exit_code.is_some() || self.unsupported.is_some() || !self.window_open {
            return DeviceEvent::Exit;
        }
        if let Some(vector) = self.screen.vector {
            DeviceEvent::Vector(vector)
        } else {
            DeviceEvent::Exit
        }
    }
}

} // verus!
