//! Text console on the framebuffer that the firmware left behind.

use super::glyph::{GlyphBitmap, glyph_for, row_pixel, shown_glyph};
use super::mmio::MmioAccess;
use super::DeviceProbeError;
use crate::ipc::frame::{RawReply, ReplyValues};
use crate::object::{Handle, ObjectError};
use vstd::prelude::*;
use vstd::string::*;

verus! {

const CONSOLE_CHAR_HEIGHT: usize = 16;

const LINE_SPACING: usize = 2;

const LETTER_SPACING: usize = 0;

const BORDER_PADDING: usize = 1;

/// Layout of the framebuffer.
#[derive(Debug, Clone, Copy, PartialEq, Eq, Structural)]
pub struct DisplayMode {
    pub width: usize,
    pub height: usize,
    /// Bytes from one row to the next.
    pub pitch: usize,
    /// Bits of a pixel.
    pub depth: usize,
    /// Positions of the colours in the bytes of a pixel.
    pub red: usize,
    pub green: usize,
    pub blue: usize,
    pub alpha: Option<usize>,
}

impl DisplayMode {
    /// A pixel has at most four bytes, its colours are among them, and the
    /// positions of all pixels can be counted.
    pub open spec fn wf(self) -> bool {
        &&& self.pitch > 0
        &&& self.depth / 8 <= 4
        &&& self.red < 4
        &&& self.green < 4
        &&& self.blue < 4
        &&& self.width + 64 <= usize::MAX
        &&& self.height + 64 <= usize::MAX
        &&& self.height * self.pitch + self.width * 4 + 4 <= usize::MAX
    }

    /// Bytes of a pixel.
    pub open spec fn pixel_len(self) -> int {
        self.depth as int / 8
    }
}

/// What the console shows and where it writes next.
#[verifier::ext_equal]
pub struct ConsoleView {
    pub bytes: Seq<u8>,
    pub x: int,
    pub y: int,
}

/// The four bytes of a pixel of a colour.
pub open spec fn pixel_bytes(mode: DisplayMode, red: u8, green: u8, blue: u8) -> Seq<u8> {
    let blank = seq![0u8, 0u8, 0u8, 0u8];
    let coloured = if mode.pixel_len() >= 3 {
        blank.update(mode.red as int, red).update(mode.green as int, green).update(
            mode.blue as int,
            blue,
        )
    } else {
        blank
    };
    match mode.alpha {
        Some(alpha) => if alpha < mode.pixel_len() {
            coloured.update(alpha as int, 0xff)
        } else {
            coloured
        },
        None => coloured,
    }
}

/// The bytes once a run of them has been stored at a position.
pub open spec fn stored(bytes: Seq<u8>, at: int, data: Seq<u8>) -> Seq<u8> {
    Seq::new(
        bytes.len(),
        |i: int|
            if at <= i < at + data.len() {
                data[i - at]
            } else {
                bytes[i]
            },
    )
}

/// The bytes once a pixel has been set. A pixel that is not on the display is
/// left out.
pub open spec fn plotted(
    bytes: Seq<u8>,
    mode: DisplayMode,
    x: int,
    y: int,
    pixel: Seq<u8>,
) -> Seq<u8> {
    let at = y * mode.pitch + x * mode.pixel_len();
    if x >= mode.width || y >= mode.height || at + mode.pixel_len() > bytes.len() {
        bytes
    } else {
        stored(bytes, at, pixel.take(mode.pixel_len()))
    }
}

/// The bytes once the first pixels of a row of a glyph have been drawn.
pub open spec fn row_drawn(
    bytes: Seq<u8>,
    mode: DisplayMode,
    width: usize,
    row: u16,
    left: int,
    y: int,
    count: int,
) -> Seq<u8>
    decreases count,
{
    if count <= 0 {
        bytes
    } else {
        let before = row_drawn(bytes, mode, width, row, left, y, count - 1);
        if row_pixel(width, row, (count - 1) as usize) {
            plotted(before, mode, left + count - 1, y, pixel_bytes(mode, 0xff, 0xff, 0xff))
        } else {
            before
        }
    }
}

/// The bytes once the first rows of a glyph have been drawn.
pub open spec fn glyph_drawn(
    bytes: Seq<u8>,
    mode: DisplayMode,
    width: usize,
    rows: Seq<u16>,
    left: int,
    top: int,
    count: int,
) -> Seq<u8>
    decreases count,
{
    if count <= 0 {
        bytes
    } else {
        row_drawn(
            glyph_drawn(bytes, mode, width, rows, left, top, count - 1),
            mode,
            width,
            rows[count - 1],
            left,
            top + count - 1,
            width as int,
        )
    }
}

/// The bytes moved towards the front, with zeros behind them.
pub open spec fn shifted(bytes: Seq<u8>, by: int) -> Seq<u8> {
    Seq::new(
        bytes.len(),
        |i: int|
            if i + by < bytes.len() {
                bytes[i + by]
            } else {
                0
            },
    )
}

/// The console at the start of the next line.
pub open spec fn on_new_line(view: ConsoleView) -> ConsoleView {
    ConsoleView { x: 1, y: view.y + 18, ..view }
}

/// The console with its rows moved up so that one more line fits.
pub open spec fn scrolled(view: ConsoleView, mode: DisplayMode) -> ConsoleView {
    let dy = view.y + 18 - mode.height;
    ConsoleView {
        bytes: shifted(view.bytes, dy * mode.pitch),
        x: view.x,
        y: if view.y <= dy {
            0
        } else {
            view.y - dy
        },
    }
}

/// The console once a glyph has been shown: on the next line where this one is
/// full, and after a scroll where the display is full.
pub open spec fn with_glyph(
    view: ConsoleView,
    mode: DisplayMode,
    width: usize,
    rows: Seq<u16>,
) -> ConsoleView {
    let placed = if view.x + width >= mode.width {
        on_new_line(view)
    } else {
        view
    };
    let room = if placed.y + 18 > mode.height {
        scrolled(placed, mode)
    } else {
        placed
    };
    ConsoleView {
        bytes: glyph_drawn(room.bytes, mode, width, rows, room.x, room.y, 16),
        x: room.x + width,
        y: room.y,
    }
}

/// The console once a character has been written.
pub open spec fn with_char(view: ConsoleView, mode: DisplayMode, c: char) -> ConsoleView {
    if c == '\n' {
        on_new_line(view)
    } else {
        with_glyph(view, mode, shown_glyph(c).0, shown_glyph(c).1)
    }
}

/// The console once the first characters of a text have been written.
pub open spec fn with_text(view: ConsoleView, mode: DisplayMode, text: Seq<char>, count: int) -> ConsoleView
    decreases count,
{
    if count <= 0 {
        view
    } else {
        with_char(with_text(view, mode, text, count - 1), mode, text[count - 1])
    }
}

/// Text console on a framebuffer.
pub struct FramebufferConsole<M> {
    framebuffer: M,
    mode: DisplayMode,
    x_pos: usize,
    y_pos: usize,
}

impl<M: MmioAccess> FramebufferConsole<M> {
    pub closed spec fn mode(&self) -> DisplayMode {
        self.mode
    }

    pub closed spec fn view(&self) -> ConsoleView {
        ConsoleView {
            bytes: self.framebuffer.bytes(),
            x: self.x_pos as int,
            y: self.y_pos as int,
        }
    }

    pub open spec fn wf(&self) -> bool {
        &&& self.mode().wf()
        &&& self.view().x <= self.mode().width + 17
    }

    /// Whether `lines` more lines can be counted.
    pub open spec fn room_for(&self, lines: int) -> bool {
        (self.view().y + 18 * lines + 36) * self.mode().pitch <= usize::MAX
    }

    /// A console on a framebuffer, cleared.
    pub fn new(framebuffer: M, mode: DisplayMode) -> (console: Self)
        requires
            mode.wf(),
        ensures
            console.wf(),
            console.mode() == mode,
            console.view() == (ConsoleView {
                bytes: Seq::new(framebuffer.bytes().len(), |i: int| 0u8),
                x: 1,
                y: 1,
            }),
    {
        let mut console = FramebufferConsole {
            framebuffer,
            mode,
            x_pos: BORDER_PADDING,
            y_pos: BORDER_PADDING,
        };
        console.clear();
        console
    }

    /// The window that the console draws into.
    pub fn framebuffer(&self) -> (window: &M)
        ensures
            window.bytes() == self.view().bytes,
    {
        &self.framebuffer
    }

    /// Clears the display and goes to its first line.
    pub fn clear(&mut self)
        requires
            old(self).wf(),
        ensures
            final(self).wf(),
            final(self).mode() == old(self).mode(),
            final(self).view() == (ConsoleView {
                bytes: Seq::new(old(self).view().bytes.len(), |i: int| 0u8),
                x: 1,
                y: 1,
            }),
    {
        let size: usize = self.framebuffer.len();
        self.fill_zero(0, size);
        self.x_pos = BORDER_PADDING;
        self.y_pos = BORDER_PADDING;
        assert(self.view().bytes =~= Seq::new(old(self).view().bytes.len(), |i: int| 0u8));
    }

    fn fill_zero(&mut self, from: usize, size: usize)
        requires
            size == old(self).view().bytes.len(),
        ensures
            final(self).mode() == old(self).mode(),
            final(self).view().x == old(self).view().x,
            final(self).view().y == old(self).view().y,
            final(self).view().bytes == Seq::new(
                old(self).view().bytes.len(),
                |i: int|
                    if i < from {
                        old(self).view().bytes[i]
                    } else {
                        0u8
                    },
            ),
    {
        let mut at: usize = from;
        while at < size
            invariant
                from <= at,
                from <= size ==> at <= size,
                size == old(self).view().bytes.len(),
                self.mode() == old(self).mode(),
                self.view().x == old(self).view().x,
                self.view().y == old(self).view().y,
                self.view().bytes == Seq::new(
                    old(self).view().bytes.len(),
                    |i: int|
                        if from <= i < at {
                            0u8
                        } else {
                            old(self).view().bytes[i]
                        },
                ),
            decreases size - at,
        {
            let _ = self.framebuffer.write_u8(at, 0);
            at = at + 1;
            assert(self.view().bytes =~= Seq::new(
                old(self).view().bytes.len(),
                |i: int|
                    if from <= i < at {
                        0u8
                    } else {
                        old(self).view().bytes[i]
                    },
            ));
        }
        assert(self.view().bytes =~= Seq::new(
            old(self).view().bytes.len(),
            |i: int|
                if i < from {
                    old(self).view().bytes[i]
                } else {
                    0u8
                },
        ));
    }

    /// Goes to the start of the next line.
    pub fn new_line(&mut self)
        requires
            old(self).wf(),
            old(self).view().y + 18 <= usize::MAX,
        ensures
            final(self).wf(),
            final(self).mode() == old(self).mode(),
            final(self).view() == on_new_line(old(self).view()),
    {
        self.x_pos = BORDER_PADDING;
        self.y_pos = self.y_pos + (LINE_SPACING + CONSOLE_CHAR_HEIGHT);
    }

    /// Moves the rows up so that one more line fits.
    pub fn move_up(&mut self)
        requires
            old(self).wf(),
            old(self).view().y + 18 > old(self).mode().height,
            old(self).room_for(0),
        ensures
            final(self).wf(),
            final(self).mode() == old(self).mode(),
            final(self).view() == scrolled(old(self).view(), old(self).mode()),
            final(self).view().bytes.len() == old(self).view().bytes.len(),
            forall|i: int|
                0 <= i < old(self).view().bytes.len() ==> #[trigger] final(self).view().bytes[i]
                    == ({
                    let below = i + (old(self).view().y + 18 - old(self).mode().height) * old(self).mode().pitch;
                    if below < old(self).view().bytes.len() {
                        old(self).view().bytes[below]
                    } else {
                        0
                    }
                }),
    {
        let ghost before = self.view();
        let ghost mode = self.mode();
        let pitch: usize = self.mode.pitch;
        let height: usize = self.mode.height;
        proof {
            let y = self.y_pos as int;
            assert((y + 36) * pitch >= y + 36) by (nonlinear_arith)
                requires
                    pitch >= 1,
                    y + 36 >= 0,
            ;
            assert((y + 18 - height) * pitch <= (y + 36) * pitch) by (nonlinear_arith)
                requires
                    y + 18 - height <= y + 36,
                    pitch >= 1,
            ;
            assert((y + 18 - height) * pitch >= 0) by (nonlinear_arith)
                requires
                    y + 18 - height >= 0,
                    pitch >= 1,
            ;
        }
        let dy: usize = self.y_pos + (LINE_SPACING + CONSOLE_CHAR_HEIGHT) - height;
        let by: usize = dy * pitch;
        let size: usize = self.framebuffer.len();
        let mut to: usize = 0;
        let keep: usize = if by < size {
            size - by
        } else {
            0
        };
        while to < keep
            invariant
                to <= keep,
                size == before.bytes.len(),
                keep == (if by < size {
                    size - by
                } else {
                    0
                }),
                self.mode() == mode,
                self.view().x == before.x,
                self.view().y == before.y,
                self.view().bytes == Seq::new(
                    before.bytes.len(),
                    |i: int|
                        if i < to {
                            before.bytes[i + by]
                        } else {
                            before.bytes[i]
                        },
                ),
            decreases keep - to,
        {
            if let Some(value) = self.framebuffer.read_u8(to + by) {
                let _ = self.framebuffer.write_u8(to, value);
            }
            to = to + 1;
            assert(self.view().bytes =~= Seq::new(
                before.bytes.len(),
                |i: int|
                    if i < to {
                        before.bytes[i + by]
                    } else {
                        before.bytes[i]
                    },
            ));
        }
        self.fill_zero(keep, size);
        assert(self.view().bytes =~= shifted(before.bytes, by as int));
        self.y_pos = if self.y_pos <= dy {
            0
        } else {
            self.y_pos - dy
        };
    }

    /// Sets a pixel to a colour.
    pub fn draw_pixel(&mut self, x: usize, y: usize, red: u8, green: u8, blue: u8)
        requires
            old(self).wf(),
        ensures
            final(self).wf(),
            final(self).mode() == old(self).mode(),
            final(self).view() == (ConsoleView {
                bytes: plotted(
                    old(self).view().bytes,
                    old(self).mode(),
                    x as int,
                    y as int,
                    pixel_bytes(old(self).mode(), red, green, blue),
                ),
                ..old(self).view()
            }),
    {
        let mode = self.mode;
        if x >= mode.width || y >= mode.height {
            return;
        }
        let pixel_len: usize = mode.depth / 8;
        proof {
            assert(y * mode.pitch <= mode.height * mode.pitch) by (nonlinear_arith)
                requires
                    y <= mode.height,
            ;
            assert(x * pixel_len <= mode.width * 4) by (nonlinear_arith)
                requires
                    x <= mode.width,
                    pixel_len <= 4,
            ;
        }
        let at: usize = y * mode.pitch + x * pixel_len;
        let size: usize = self.framebuffer.len();
        if at + pixel_len > size {
            return;
        }
        let mut pixel: Vec<u8> = vec![0, 0, 0, 0];
        if pixel_len >= 3 {
            pixel.set(mode.red, red);
            pixel.set(mode.green, green);
            pixel.set(mode.blue, blue);
        }
        if let Some(alpha) = mode.alpha {
            if alpha < pixel_len {
                pixel.set(alpha, 0xff);
            }
        }
        assert(pixel@ =~= pixel_bytes(mode, red, green, blue));
        let ghost before = self.view();
        let ghost data = pixel@.take(pixel_len as int);
        let mut i: usize = 0;
        assert(self.view().bytes =~= stored(before.bytes, at as int, data.take(0)));
        while i < pixel_len
            invariant
                i <= pixel_len <= 4,
                pixel@.len() == 4,
                data == pixel@.take(pixel_len as int),
                at + pixel_len <= size,
                size == before.bytes.len(),
                self.mode() == mode,
                self.view().x == before.x,
                self.view().y == before.y,
                self.view().bytes == stored(before.bytes, at as int, data.take(i as int)),
            decreases pixel_len - i,
        {
            let _ = self.framebuffer.write_u8(at + i, pixel[i]);
            i = i + 1;
            assert(self.view().bytes =~= stored(before.bytes, at as int, data.take(i as int)));
        }
        assert(data.take(i as int) =~= data);
    }

    /// Shows a glyph behind what has been written.
    pub fn draw_glyph(&mut self, glyph: &GlyphBitmap)
        requires
            old(self).wf(),
            old(self).room_for(1),
            glyph.wf(),
        ensures
            final(self).wf(),
            final(self).mode() == old(self).mode(),
            final(self).view() == with_glyph(
                old(self).view(),
                old(self).mode(),
                glyph.width,
                glyph.rows@,
            ),
    {
        let ghost mode = self.mode();
        let ghost first = self.view().y;
        proof {
            lemma_room(first, mode.pitch as int, 1);
        }
        if self.x_pos + glyph.width >= self.mode.width {
            self.new_line();
        }
        proof {
            let y = self.view().y;
            let pitch = mode.pitch as int;
            assert((y + 36) * pitch <= (first + 54) * pitch) by (nonlinear_arith)
                requires
                    y <= first + 18,
                    pitch >= 1,
            ;
        }
        if self.y_pos + (CONSOLE_CHAR_HEIGHT + LINE_SPACING) > self.mode.height {
            self.move_up();
        }
        let ghost room = self.view();
        let mut y: usize = 0;
        while y < CONSOLE_CHAR_HEIGHT
            invariant
                y <= CONSOLE_CHAR_HEIGHT,
                glyph.wf(),
                self.wf(),
                self.mode() == mode,
                room.y + 18 <= usize::MAX,
                room.x <= mode.width + 17,
                mode.wf(),
                self.view() == (ConsoleView {
                    bytes: glyph_drawn(
                        room.bytes,
                        mode,
                        glyph.width,
                        glyph.rows@,
                        room.x,
                        room.y,
                        y as int,
                    ),
                    ..room
                }),
            decreases CONSOLE_CHAR_HEIGHT - y,
        {
            let ghost above = self.view().bytes;
            let ghost row = glyph.rows@[y as int];
            let mut x: usize = 0;
            while x < glyph.width
                invariant
                    x <= glyph.width,
                    y < CONSOLE_CHAR_HEIGHT,
                    glyph.wf(),
                    row == glyph.rows@[y as int],
                    self.wf(),
                    self.mode() == mode,
                    room.y + 18 <= usize::MAX,
                    room.x <= mode.width + 17,
                    mode.wf(),
                    self.view() == (ConsoleView {
                        bytes: row_drawn(
                            above,
                            mode,
                            glyph.width,
                            row,
                            room.x,
                            room.y + y,
                            x as int,
                        ),
                        ..room
                    }),
                decreases glyph.width - x,
            {
                if glyph.get_pixel(x, y) {
                    let left: usize = self.x_pos + x;
                    let top: usize = self.y_pos + y;
                    self.draw_pixel(left, top, 0xff, 0xff, 0xff);
                }
                x = x + 1;
            }
            y = y + 1;
        }
        self.x_pos = self.x_pos + (glyph.width + LETTER_SPACING);
    }

    /// Writes a character. A character without a glyph of its own is shown as
    /// the question mark.
    pub fn draw_char(&mut self, c: char)
        requires
            old(self).wf(),
            old(self).room_for(1),
        ensures
            final(self).wf(),
            final(self).mode() == old(self).mode(),
            final(self).view() == with_char(old(self).view(), old(self).mode(), c),
    {
        if c == '\n' {
            proof {
                lemma_room(self.view().y, self.mode().pitch as int, 1);
            }
            self.new_line();
            return;
        }
        let glyph = glyph_for(c);
        self.draw_glyph(&glyph);
    }

    /// Writes a text.
    pub fn write_str(&mut self, text: &str)
        requires
            old(self).wf(),
            old(self).room_for(text@.len() as int),
        ensures
            final(self).wf(),
            final(self).mode() == old(self).mode(),
            final(self).view() == with_text(
                old(self).view(),
                old(self).mode(),
                text@,
                text@.len() as int,
            ),
    {
        let ghost before = self.view();
        let ghost mode = self.mode();
        let count: usize = text.unicode_len();
        let mut i: usize = 0;
        while i < count
            invariant
                i <= count,
                count == text@.len(),
                self.wf(),
                self.mode() == mode,
                (before.y + 18 * count + 36) * mode.pitch <= usize::MAX,
                self.view().y <= before.y + 18 * i,
                self.view() == with_text(before, mode, text@, i as int),
            decreases count - i,
        {
            proof {
                let y = self.view().y;
                let first = before.y;
                let pitch = mode.pitch as int;
                assert((y + 18 + 36) * pitch <= (first + 18 * count + 36) * pitch)
                    by (nonlinear_arith)
                    requires
                        y + 18 <= first + 18 * count,
                        pitch >= 1,
                ;
            }
            let c: char = text.get_char(i);
            self.draw_char(c);
            i = i + 1;
        }
    }
}

proof fn lemma_room(y: int, pitch: int, lines: int)
    requires
        0 <= y,
        0 <= lines,
        pitch >= 1,
        (y + 18 * lines + 36) * pitch <= usize::MAX,
    ensures
        y + 18 * lines + 36 <= usize::MAX,
{
    assert((y + 18 * lines + 36) * pitch >= y + 18 * lines + 36) by (nonlinear_arith)
        requires
            pitch >= 1,
            y + 18 * lines + 36 >= 0,
    ;
}

/// Writing never changes the size of the framebuffer.
pub proof fn law_text_keeps_size(view: ConsoleView, mode: DisplayMode, text: Seq<char>, count: int)
    ensures
        with_text(view, mode, text, count).bytes.len() == view.bytes.len(),
    decreases count,
{
    if count > 0 {
        law_text_keeps_size(view, mode, text, count - 1);
        let before = with_text(view, mode, text, count - 1);
        if text[count - 1] != '\n' {
            let (width, rows) = shown_glyph(text[count - 1]);
            let placed = if before.x + width >= mode.width {
                on_new_line(before)
            } else {
                before
            };
            let room = if placed.y + 18 > mode.height {
                scrolled(placed, mode)
            } else {
                placed
            };
            lemma_glyph_keeps_size(room.bytes, mode, width, rows, room.x, room.y, 16);
        }
    }
}

proof fn lemma_glyph_keeps_size(
    bytes: Seq<u8>,
    mode: DisplayMode,
    width: usize,
    rows: Seq<u16>,
    left: int,
    top: int,
    count: int,
)
    ensures
        glyph_drawn(bytes, mode, width, rows, left, top, count).len() == bytes.len(),
    decreases count,
{
    if count > 0 {
        lemma_glyph_keeps_size(bytes, mode, width, rows, left, top, count - 1);
        lemma_row_keeps_size(
            glyph_drawn(bytes, mode, width, rows, left, top, count - 1),
            mode,
            width,
            rows[count - 1],
            left,
            top + count - 1,
            width as int,
        );
    }
}

proof fn lemma_row_keeps_size(
    bytes: Seq<u8>,
    mode: DisplayMode,
    width: usize,
    row: u16,
    left: int,
    y: int,
    count: int,
)
    ensures
        row_drawn(bytes, mode, width, row, left, y, count).len() == bytes.len(),
    decreases count,
{
    if count > 0 {
        lemma_row_keeps_size(bytes, mode, width, row, left, y, count - 1);
    }
}

/// After a scroll every byte of the rows that were freed at the bottom is zero, and
/// every earlier byte is the one that stood that many rows below it.
pub proof fn law_scroll_clears_what_it_frees(view: ConsoleView, mode: DisplayMode, i: int)
    requires
        view.y + 18 > mode.height,
        0 <= i < view.bytes.len(),
    ensures
        ({
            let dy = view.y + 18 - mode.height;
            let moved = dy * mode.pitch;
            let after = scrolled(view, mode);
            &&& after.bytes.len() == view.bytes.len()
            &&& i < view.bytes.len() - moved ==> after.bytes[i] == view.bytes[i + moved]
            &&& i >= view.bytes.len() - moved ==> after.bytes[i] == 0
            &&& after.x == view.x
            &&& after.y == view.y - dy || (after.y == 0 && view.y <= dy)
        }),
{
}

/// After a scroll the next line fits on a display that is high enough for one.
pub proof fn law_scroll_makes_room(view: ConsoleView, mode: DisplayMode)
    requires
        view.y + 18 > mode.height,
        mode.height >= 18,
    ensures
        scrolled(view, mode).y + 18 <= mode.height,
{
}

/// Life of the framebuffer device.
#[derive(Debug, Clone, Copy, PartialEq, Eq, Structural)]
pub struct EfiFramebufferState {
    pub logger_slot: Option<usize>,
    pub destroyed: bool,
}

/// EFI framebuffer device published under `/Kernel/Device/EFIFramebuffer`.
pub struct EfiFramebuffer<M> {
    state: EfiFramebufferState,
    console: FramebufferConsole<M>,
}

impl<M: MmioAccess> EfiFramebuffer<M> {
    pub closed spec fn state(&self) -> EfiFramebufferState {
        self.state
    }

    pub closed spec fn console(&self) -> FramebufferConsole<M> {
        self.console
    }

    pub fn new(framebuffer: M, mode: DisplayMode) -> (device: Self)
        requires
            mode.wf(),
        ensures
            device.state() == (EfiFramebufferState { logger_slot: None, destroyed: false }),
            device.console().wf(),
            device.console().mode() == mode,
            device.console().view() == (ConsoleView {
                bytes: Seq::new(framebuffer.bytes().len(), |i: int| 0u8),
                x: 1,
                y: 1,
            }),
    {
        EfiFramebuffer {
            state: EfiFramebufferState { logger_slot: None, destroyed: false },
            console: FramebufferConsole::new(framebuffer, mode),
        }
    }

    /// The window that the device draws into.
    pub fn framebuffer(&self) -> (window: &M)
        ensures
            window.bytes() == self.console().view().bytes,
    {
        self.console.framebuffer()
    }

    /// Bind a logger output slot to this device for later cleanup.
    pub fn attach_logger_output(&mut self, slot: usize) -> (result: Result<(), ObjectError>)
        ensures
            final(self).console() == old(self).console(),
            result == (if old(self).state().destroyed {
                Err::<(), ObjectError>(ObjectError::ObjectDestroyed)
            } else if old(self).state().logger_slot is Some {
                Err::<(), ObjectError>(ObjectError::InvalidArgument)
            } else {
                Ok::<(), ObjectError>(())
            }),
            final(self).state() == (if result is Ok {
                EfiFramebufferState { logger_slot: Some(slot), ..old(self).state() }
            } else {
                old(self).state()
            }),
    {
        if self.state.destroyed {
            return Err(ObjectError::ObjectDestroyed);
        }
        if self.state.logger_slot.is_some() {
            return Err(ObjectError::InvalidArgument);
        }
        self.state.logger_slot = Some(slot);
        Ok(())
    }

    /// Write UTF-8 text to the framebuffer console.
    pub fn write_str(&mut self, text: &str) -> (result: Result<(), ObjectError>)
        requires
            old(self).console().wf(),
            old(self).console().room_for(text@.len() as int),
        ensures
            final(self).console().wf(),
            final(self).state() == old(self).state(),
            final(self).console().mode() == old(self).console().mode(),
            if old(self).state().destroyed {
                &&& result == Err::<(), ObjectError>(ObjectError::ObjectDestroyed)
                &&& final(self).console().view() == old(self).console().view()
            } else {
                &&& result == Ok::<(), ObjectError>(())
                &&& final(self).console().view() == with_text(
                    old(self).console().view(),
                    old(self).console().mode(),
                    text@,
                    text@.len() as int,
                )
            },
    {
        if self.state.destroyed {
            return Err(ObjectError::ObjectDestroyed);
        }
        self.console.write_str(text);
        Ok(())
    }

    /// Permanently unregister this framebuffer device. The logger output that
    /// was bound to it has to go too.
    pub fn unregister(&mut self) -> (result: Result<Option<usize>, ObjectError>)
        ensures
            final(self).console() == old(self).console(),
            if old(self).state().destroyed {
                &&& result == Err::<Option<usize>, ObjectError>(ObjectError::ObjectDestroyed)
                &&& final(self).state() == old(self).state()
            } else {
                &&& result == Ok::<Option<usize>, ObjectError>(old(self).state().logger_slot)
                &&& final(self).state() == (EfiFramebufferState {
                    logger_slot: None,
                    destroyed: true,
                })
            },
    {
        if self.state.destroyed {
            return Err(ObjectError::ObjectDestroyed);
        }
        self.state.destroyed = true;
        let slot = self.state.logger_slot;
        self.state.logger_slot = None;
        Ok(slot)
    }

    /// Starts a method of the device. Method 0 unregisters it: the logger output
    /// that is named here has to go, then the driver is removed, and
    /// `finish_dispatch` answers the call.
    pub fn dispatch(&mut self, method_id: usize) -> (result: Result<Option<usize>, ObjectError>)
        ensures
            final(self).console() == old(self).console(),
            if method_id != 0 {
                &&& result == Err::<Option<usize>, ObjectError>(ObjectError::InvalidArgument)
                &&& final(self).state() == old(self).state()
            } else if old(self).state().destroyed {
                &&& result == Err::<Option<usize>, ObjectError>(ObjectError::ObjectDestroyed)
                &&& final(self).state() == old(self).state()
            } else {
                &&& result == Ok::<Option<usize>, ObjectError>(old(self).state().logger_slot)
                &&& final(self).state() == (EfiFramebufferState {
                    logger_slot: None,
                    destroyed: true,
                })
            },
    {
        match method_id {
            0 => self.unregister(),
            _ => Err(ObjectError::InvalidArgument),
        }
    }

    /// Answers the call that unregistered the device from how removing its
    /// driver ended: the status word is one, and the rest is zero. A device whose
    /// driver could not be removed is gone all the same.
    pub fn finish_dispatch(removed: Result<(), ObjectError>) -> (result: Result<
        RawReply,
        ObjectError,
    >)
        ensures
            result == (match removed {
                Ok(_) => Ok::<RawReply, ObjectError>(
                    RawReply {
                        status: 1,
                        values: (ReplyValues { v0: 0, v1: 0, v2: 0, v3: 0, v4: 0 }),
                    },
                ),
                Err(error) => Err::<RawReply, ObjectError>(error),
            }),
    {
        match removed {
            Ok(()) => Ok(
                RawReply {
                    status: 1,
                    values: ReplyValues { v0: 0, v1: 0, v2: 0, v3: 0, v4: 0 },
                },
            ),
            Err(error) => Err(error),
        }
    }
}

/// Step of probing the framebuffer.
#[derive(Debug, Clone, Copy, PartialEq, Eq)]
pub enum FramebufferProbeStep {
    /// Take the framebuffer that the boot loader left.
    Take,
    /// Make the device.
    Make,
    /// Register the device.
    Register,
    /// Remove what the boot loader published.
    Remove(Handle),
    /// Take the device back.
    RollBack,
    Done(Result<Option<Handle>, DeviceProbeError>),
}

/// How a step of the probe ended.
#[derive(Debug, Clone, Copy, PartialEq, Eq)]
pub enum FramebufferProbeEvent {
    /// `false` where the boot loader left none.
    Taken(Result<bool, ObjectError>),
    Made(Result<(), ObjectError>),
    Registered(Result<Handle, ObjectError>),
    Removed(Result<(), ObjectError>),
    RolledBack,
}

impl FramebufferProbeStep {
    /// What a step leads to. The first failure ends the probe; a device that was
    /// registered is taken back first. A step goes on only from its own event.
    pub open spec fn after(self, event: FramebufferProbeEvent) -> FramebufferProbeStep {
        let failed = FramebufferProbeStep::Done(Err(DeviceProbeError::InitializationFailed));
        match (self, event) {
            (FramebufferProbeStep::Take, FramebufferProbeEvent::Taken(taken)) => match taken {
                Ok(true) => FramebufferProbeStep::Make,
                Ok(false) => FramebufferProbeStep::Done(Err(DeviceProbeError::NotPresent)),
                Err(_) => failed,
            },
            (FramebufferProbeStep::Make, FramebufferProbeEvent::Made(made)) => if made is Ok {
                FramebufferProbeStep::Register
            } else {
                failed
            },
            (
                FramebufferProbeStep::Register,
                FramebufferProbeEvent::Registered(registered),
            ) => match registered {
                Ok(handle) => FramebufferProbeStep::Remove(handle),
                Err(_) => failed,
            },
            (
                FramebufferProbeStep::Remove(handle),
                FramebufferProbeEvent::Removed(removed),
            ) => if removed is Ok {
                FramebufferProbeStep::Done(Ok(Some(handle)))
            } else {
                FramebufferProbeStep::RollBack
            },
            (FramebufferProbeStep::RollBack, FramebufferProbeEvent::RolledBack) => failed,
            _ => self,
        }
    }

    /// Goes on after a step of the probe was taken. A probe begins with `Take`.
    pub fn probe_efi_framebuffer(self, event: FramebufferProbeEvent) -> (step: Self)
        ensures
            step == self.after(event),
    {
        let failed = FramebufferProbeStep::Done(Err(DeviceProbeError::InitializationFailed));
        match (self, event) {
            (FramebufferProbeStep::Take, FramebufferProbeEvent::Taken(taken)) => match taken {
                Ok(present) => if present {
                    FramebufferProbeStep::Make
                } else {
                    FramebufferProbeStep::Done(Err(DeviceProbeError::NotPresent))
                },
                Err(_) => failed,
            },
            (FramebufferProbeStep::Make, FramebufferProbeEvent::Made(made)) => match made {
                Ok(()) => FramebufferProbeStep::Register,
                Err(_) => failed,
            },
            (
                FramebufferProbeStep::Register,
                FramebufferProbeEvent::Registered(registered),
            ) => match registered {
                Ok(handle) => FramebufferProbeStep::Remove(handle),
                Err(_) => failed,
            },
            (
                FramebufferProbeStep::Remove(handle),
                FramebufferProbeEvent::Removed(removed),
            ) => match removed {
                Ok(()) => FramebufferProbeStep::Done(Ok(Some(handle))),
                Err(_) => FramebufferProbeStep::RollBack,
            },
            (FramebufferProbeStep::RollBack, FramebufferProbeEvent::RolledBack) => failed,
            _ => self,
        }
    }
}

/// The device is registered only after it was made, and made only after the boot
/// loader's framebuffer was taken. A registered device survives the probe just
/// where what the boot loader published could be removed.
pub proof fn law_framebuffer_probe_in_order(
    taken: Result<bool, ObjectError>,
    made: Result<(), ObjectError>,
    registered: Result<Handle, ObjectError>,
    removed: Result<(), ObjectError>,
)
    ensures
        ({
            let made_next = FramebufferProbeStep::Take.after(FramebufferProbeEvent::Taken(taken));
            let register_next = made_next.after(FramebufferProbeEvent::Made(made));
            let remove_next = register_next.after(FramebufferProbeEvent::Registered(registered));
            let last = remove_next.after(FramebufferProbeEvent::Removed(removed));
            let present = taken == Ok::<bool, ObjectError>(true);
            &&& made_next is Make <==> present
            &&& register_next is Register <==> present && made is Ok
            &&& remove_next is Remove <==> present && made is Ok && registered is Ok
            &&& last is RollBack <==> remove_next is Remove && removed is Err
            &&& last == FramebufferProbeStep::Done(Ok(Some(registered->Ok_0))) <==> remove_next
                is Remove && removed is Ok
        }),
{
}

} // verus!
