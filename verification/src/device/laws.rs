//! What the console and the probes of devices guarantee, stated over the pixels of
//! the display and over what the firmware says.

use super::acpi::{
    enabled_lapics, Acpi, AcpiError, AcpiProbeEvent, AcpiProbeStep, AcpiView, DiscoverEvent,
    DiscoverStep, MadtEntry,
};
use super::efifb::{
    glyph_drawn, pixel_bytes, plotted, row_drawn, with_char, with_text, ConsoleView, DisplayMode,
};
use super::glyph::{row_pixel, shown_glyph};
use super::manager::{kept_handles, probes_run};
use super::DeviceProbeError;
use crate::object::{Handle, ObjectError};
use vstd::prelude::*;

verus! {

/// A display whose rows hold all of their pixels, in memory that holds all rows.
pub open spec fn roomy(mode: DisplayMode, bytes: Seq<u8>) -> bool {
    let pixel = mode.depth as int / 8;
    &&& 1 <= pixel <= 4
    &&& mode.width * pixel <= mode.pitch
    &&& mode.height * mode.pitch <= bytes.len()
    &&& mode.red < 4
    &&& mode.green < 4
    &&& mode.blue < 4
}

/// Where a byte of a pixel is.
pub open spec fn place(mode: DisplayMode, x: int, y: int, k: int) -> int {
    y * mode.pitch + x * (mode.depth as int / 8) + k
}

proof fn lemma_places_apart(pitch: int, pixel: int, width: int, x: int, y: int, px: int, py: int, k: int)
    requires
        1 <= pixel,
        width * pixel <= pitch,
        0 <= x < width,
        0 <= px < width,
        0 <= k < pixel,
        0 <= y,
        0 <= py,
    ensures
        y * pitch + x * pixel <= py * pitch + px * pixel + k < y * pitch + x * pixel + pixel <==> x
            == px && y == py,
{
    assert(x * pixel + pixel <= pitch && px * pixel + pixel <= pitch && 0 <= x * pixel && 0 <= px
        * pixel) by (nonlinear_arith)
        requires
            0 <= x < width,
            0 <= px < width,
            1 <= pixel,
            width * pixel <= pitch,
    ;
    if y < py {
        assert(y * pitch + pitch <= py * pitch) by (nonlinear_arith)
            requires
                y + 1 <= py,
                pitch >= 0,
        ;
    } else if py < y {
        assert(py * pitch + pitch <= y * pitch) by (nonlinear_arith)
            requires
                py + 1 <= y,
                pitch >= 0,
        ;
    } else if x < px {
        assert(x * pixel + pixel <= px * pixel) by (nonlinear_arith)
            requires
                x + 1 <= px,
                pixel >= 1,
        ;
    } else if px < x {
        assert(px * pixel + pixel <= x * pixel) by (nonlinear_arith)
            requires
                px + 1 <= x,
                pixel >= 1,
        ;
    }
}

proof fn lemma_place_inside(mode: DisplayMode, bytes: Seq<u8>, x: int, y: int, k: int)
    requires
        roomy(mode, bytes),
        0 <= x < mode.width,
        0 <= y < mode.height,
        0 <= k <= mode.depth as int / 8,
    ensures
        0 <= place(mode, x, y, 0),
        place(mode, x, y, k) <= bytes.len(),
{
    let pixel = mode.depth as int / 8;
    assert(0 <= x * pixel && x * pixel + pixel <= mode.pitch) by (nonlinear_arith)
        requires
            0 <= x < mode.width,
            1 <= pixel,
            mode.width * pixel <= mode.pitch,
    ;
    assert(0 <= y * mode.pitch && y * mode.pitch + mode.pitch <= mode.height * mode.pitch)
        by (nonlinear_arith)
        requires
            0 <= y < mode.height,
            mode.pitch >= 0,
    ;
}

/// Setting a pixel writes the bytes of that pixel and of no other; a pixel that is
/// not on the display is left out.
pub proof fn law_pixel_is_set_alone(
    bytes: Seq<u8>,
    mode: DisplayMode,
    x: int,
    y: int,
    pixel: Seq<u8>,
    px: int,
    py: int,
    k: int,
)
    requires
        roomy(mode, bytes),
        pixel.len() == 4,
        0 <= x,
        0 <= y,
        0 <= px < mode.width,
        0 <= py < mode.height,
        0 <= k < mode.depth as int / 8,
    ensures
        plotted(bytes, mode, x, y, pixel).len() == bytes.len(),
        plotted(bytes, mode, x, y, pixel)[place(mode, px, py, k)] == (if x == px && y == py {
            pixel[k]
        } else {
            bytes[place(mode, px, py, k)]
        }),
        x >= mode.width || y >= mode.height ==> plotted(bytes, mode, x, y, pixel) == bytes,
{
    let len = mode.depth as int / 8;
    lemma_place_inside(mode, bytes, px, py, k);
    lemma_place_inside(mode, bytes, px, py, len);
    if x < mode.width && y < mode.height {
        lemma_place_inside(mode, bytes, x, y, len);
        lemma_places_apart(mode.pitch as int, len, mode.width as int, x, y, px, py, k);
    }
}

proof fn lemma_row_shows(
    bytes: Seq<u8>,
    mode: DisplayMode,
    width: usize,
    row: u16,
    left: int,
    y: int,
    count: int,
    px: int,
    py: int,
    k: int,
)
    requires
        roomy(mode, bytes),
        0 <= left,
        0 <= y,
        0 <= px < mode.width,
        0 <= py < mode.height,
        0 <= k < mode.depth as int / 8,
        0 <= count <= usize::MAX,
    ensures
        row_drawn(bytes, mode, width, row, left, y, count).len() == bytes.len(),
        row_drawn(bytes, mode, width, row, left, y, count)[place(mode, px, py, k)] == (if py == y
            && left <= px < left + count && row_pixel(width, row, (px - left) as usize) {
            pixel_bytes(mode, 0xff, 0xff, 0xff)[k]
        } else {
            bytes[place(mode, px, py, k)]
        }),
    decreases count,
{
    if count > 0 {
        lemma_row_shows(bytes, mode, width, row, left, y, count - 1, px, py, k);
        let before = row_drawn(bytes, mode, width, row, left, y, count - 1);
        law_pixel_is_set_alone(
            before,
            mode,
            left + count - 1,
            y,
            pixel_bytes(mode, 0xff, 0xff, 0xff),
            px,
            py,
            k,
        );
    }
}

/// A glyph that is drawn shows its set pixels in white, at its place, and leaves
/// every other pixel of the display as it was.
pub proof fn law_glyph_shows_its_pixels(
    bytes: Seq<u8>,
    mode: DisplayMode,
    width: usize,
    rows: Seq<u16>,
    left: int,
    top: int,
    count: int,
    px: int,
    py: int,
    k: int,
)
    requires
        roomy(mode, bytes),
        0 <= left,
        0 <= top,
        0 <= px < mode.width,
        0 <= py < mode.height,
        0 <= k < mode.depth as int / 8,
        0 <= count <= rows.len(),
    ensures
        glyph_drawn(bytes, mode, width, rows, left, top, count).len() == bytes.len(),
        glyph_drawn(bytes, mode, width, rows, left, top, count)[place(mode, px, py, k)] == (if left
            <= px < left + width && top <= py < top + count && row_pixel(
            width,
            rows[py - top],
            (px - left) as usize,
        ) {
            pixel_bytes(mode, 0xff, 0xff, 0xff)[k]
        } else {
            bytes[place(mode, px, py, k)]
        }),
    decreases count,
{
    if count > 0 {
        law_glyph_shows_its_pixels(bytes, mode, width, rows, left, top, count - 1, px, py, k);
        lemma_row_shows(
            glyph_drawn(bytes, mode, width, rows, left, top, count - 1),
            mode,
            width,
            rows[count - 1],
            left,
            top + count - 1,
            width as int,
            px,
            py,
            k,
        );
    }
}

/// The pixels of a row of a glyph are the bits of the row, the leftmost being the
/// highest of as many bits as the glyph is wide.
pub proof fn law_pixels_are_the_bits(row: u16, x: usize)
    ensures
        x < 8 ==> row_pixel(8, row, x) == ((row >> ((7 - x) as u16)) % 2 == 1),
        x < 16 ==> row_pixel(16, row, x) == ((row >> ((15 - x) as u16)) % 2 == 1),
{
    if x < 16 {
        let at = x as u16;
        let high = (15 - x) as u16;
        assert((row & (0x8000u16 >> at) != 0) == ((row >> high) % 2 == 1)) by (bit_vector)
            requires
                at < 16,
                high == 15 - at,
        ;
        if x < 8 {
            let low = (7 - x) as u16;
            assert((row & (0x80u16 >> at) != 0) == ((row >> low) % 2 == 1)) by (bit_vector)
                requires
                    at < 8,
                    low == 7 - at,
            ;
        }
    }
}

/// A colour goes to the bytes that the display has for its parts, an opaque value
/// to the byte for transparency, and nothing to the others.
pub proof fn law_colour_goes_to_its_bytes(mode: DisplayMode, red: u8, green: u8, blue: u8, k: int)
    requires
        3 <= mode.depth as int / 8,
        mode.red < 4,
        mode.green < 4,
        mode.blue < 4,
        mode.red != mode.green,
        mode.red != mode.blue,
        mode.green != mode.blue,
        mode.alpha matches Some(alpha) ==> alpha < mode.depth as int / 8 <= 4 && alpha != mode.red
            && alpha != mode.green && alpha != mode.blue,
        0 <= k < 4,
    ensures
        pixel_bytes(mode, red, green, blue).len() == 4,
        pixel_bytes(mode, red, green, blue)[mode.red as int] == red,
        pixel_bytes(mode, red, green, blue)[mode.green as int] == green,
        pixel_bytes(mode, red, green, blue)[mode.blue as int] == blue,
        mode.alpha matches Some(alpha) ==> pixel_bytes(mode, red, green, blue)[alpha as int]
            == 0xff,
        k != mode.red && k != mode.green && k != mode.blue && mode.alpha != Some(k as usize)
            ==> pixel_bytes(mode, red, green, blue)[k] == 0,
{
}

/// A line break goes to the start of the next line and draws nothing. Any other
/// character stays on its line where it fits there, and begins the next line where
/// it does not; the console then stands behind it, on a line that is on the
/// display if the display has room for one.
pub proof fn law_characters_fill_lines(view: ConsoleView, mode: DisplayMode, c: char)
    requires
        mode.height >= 18,
        view.y >= 0,
    ensures
        c == '\n' ==> {
            let after = with_char(view, mode, c);
            &&& after.bytes == view.bytes
            &&& after.x == 1
            &&& after.y == view.y + 18
        },
        c != '\n' ==> {
            let after = with_char(view, mode, c);
            let width = shown_glyph(c).0;
            let fits = view.x + width < mode.width;
            let line = if fits {
                view.y
            } else {
                view.y + 18
            };
            &&& after.x == (if fits {
                view.x
            } else {
                1
            }) + width
            &&& line + 18 <= mode.height ==> after.y == line
            &&& line + 18 > mode.height ==> after.y <= line && after.y + 18 <= mode.height
            &&& line + 18 > mode.height && 2 * mode.height >= line + 36 ==> after.y + 18
                == mode.height
        },
{
}

/// Text is written character by character: a text that follows another goes on
/// where that one ended.
pub proof fn law_texts_follow_each_other(
    view: ConsoleView,
    mode: DisplayMode,
    first: Seq<char>,
    second: Seq<char>,
    count: int,
)
    requires
        0 <= count <= second.len(),
    ensures
        with_text(view, mode, first + second, first.len() + count) == with_text(
            with_text(view, mode, first, first.len() as int),
            mode,
            second,
            count,
        ),
    decreases count,
{
    if count > 0 {
        law_texts_follow_each_other(view, mode, first, second, count - 1);
        assert((first + second)[first.len() + count - 1] == second[count - 1]);
    } else {
        lemma_prefix(view, mode, first, second, first.len() as int);
    }
}

proof fn lemma_prefix(
    view: ConsoleView,
    mode: DisplayMode,
    first: Seq<char>,
    second: Seq<char>,
    count: int,
)
    requires
        0 <= count <= first.len(),
    ensures
        with_text(view, mode, first + second, count) == with_text(view, mode, first, count),
    decreases count,
{
    if count > 0 {
        lemma_prefix(view, mode, first, second, count - 1);
        assert((first + second)[count - 1] == first[count - 1]);
    }
}

proof fn lemma_kept_devices(
    results: Seq<Result<Option<Handle>, DeviceProbeError>>,
    count: int,
    handle: Handle,
)
    requires
        0 <= count <= results.len(),
    ensures
        kept_handles(results, count).contains(handle) <==> exists|i: int|
            0 <= i < count && #[trigger] results[i] == Ok::<Option<Handle>, DeviceProbeError>(
                Some(handle),
            ),
    decreases count,
{
    if count > 0 {
        let before = kept_handles(results, count - 1);
        let all = kept_handles(results, count);
        lemma_kept_devices(results, count - 1, handle);
        if before.contains(handle) {
            let k = choose|k: int| 0 <= k < before.len() && before[k] == handle;
            assert(all[k] == handle);
        }
        if let Ok(Some(last)) = results[count - 1] {
            assert(all[before.len() as int] == last);
            if all.contains(handle) && handle != last {
                let k = choose|k: int| 0 <= k < all.len() && all[k] == handle;
                assert(before[k] == handle);
            }
        }
    }
}

proof fn lemma_probes_run(
    results: Seq<Result<Option<Handle>, DeviceProbeError>>,
    from: int,
    at: int,
)
    requires
        0 <= from <= at <= results.len(),
        forall|k: int|
            from <= k < at ==> (#[trigger] results[k] is Ok || results[k]->Err_0 is NotPresent),
        at < results.len() ==> results[at] is Err && !(results[at]->Err_0 is NotPresent),
    ensures
        probes_run(results, from) == (if at < results.len() {
            at + 1
        } else {
            at
        }),
    decreases at - from,
{
    if from < at {
        assert(results[from] is Ok || results[from]->Err_0 is NotPresent);
        lemma_probes_run(results, from + 1, at);
    }
}

/// Devices are probed in order up to the first that fails. One that is not there
/// has not failed. Every device that was found stays published.
pub proof fn law_probing_ends_at_the_first_failure(
    results: Seq<Result<Option<Handle>, DeviceProbeError>>,
    at: int,
    handle: Handle,
)
    requires
        0 <= at <= results.len(),
        forall|k: int|
            0 <= k < at ==> (#[trigger] results[k] is Ok || results[k]->Err_0 is NotPresent),
        at < results.len() ==> results[at] is Err && !(results[at]->Err_0 is NotPresent),
    ensures
        at < results.len() ==> probes_run(results, 0) == at + 1,
        at == results.len() ==> probes_run(results, 0) == at,
        kept_handles(results, probes_run(results, 0)).contains(handle) <==> exists|i: int|
            0 <= i < at && #[trigger] results[i] == Ok::<Option<Handle>, DeviceProbeError>(
                Some(handle),
            ),
{
    lemma_probes_run(results, 0, at);
    lemma_kept_devices(results, probes_run(results, 0), handle);
}

/// Whether an entry of the processor table stands for a processor with this
/// identifier that may be used.
pub open spec fn usable_processor(entry: MadtEntry, id: u32) -> bool {
    ||| entry matches MadtEntry::LocalApic { apic_id, flags } && apic_id == id && flags % 2 == 1
    ||| entry matches MadtEntry::LocalX2Apic { x2apic_id, flags } && x2apic_id == id && flags % 2
        == 1
}

proof fn lemma_enabled_bit(flags: u32)
    ensures
        flags & 1 != 0 <==> flags % 2 == 1,
{
    assert(flags & 1 != 0 <==> flags % 2 == 1) by (bit_vector);
}

/// The processors of the machine are those of the table that are enabled, in the
/// order of the table.
pub proof fn law_enabled_processors_are_known(entries: Seq<MadtEntry>, count: int, id: u32)
    requires
        0 <= count <= entries.len(),
    ensures
        enabled_lapics(entries, count).contains(id) <==> exists|i: int|
            0 <= i < count && usable_processor(#[trigger] entries[i], id),
        count > 0 && usable_processor(entries[count - 1], id) ==> enabled_lapics(
            entries,
            count,
        ) == enabled_lapics(entries, count - 1).push(id),
        count > 0 && (forall|other: u32| !#[trigger] usable_processor(entries[count - 1], other))
            ==> enabled_lapics(entries, count) == enabled_lapics(entries, count - 1),
    decreases count,
{
    if count > 0 {
        let before = enabled_lapics(entries, count - 1);
        let all = enabled_lapics(entries, count);
        law_enabled_processors_are_known(entries, count - 1, id);
        match entries[count - 1] {
            MadtEntry::LocalApic { apic_id, flags } => {
                lemma_enabled_bit(flags);
                assert(flags % 2 == 1 ==> usable_processor(entries[count - 1], apic_id as u32));
            },
            MadtEntry::LocalX2Apic { x2apic_id, flags } => {
                lemma_enabled_bit(flags);
                assert(flags % 2 == 1 ==> usable_processor(entries[count - 1], x2apic_id));
            },
            MadtEntry::Other => {},
        }
        if before.contains(id) {
            let k = choose|k: int| 0 <= k < before.len() && before[k] == id;
            assert(all[k] == id);
        }
        if all.len() > before.len() {
            assert(all[before.len() as int] == all.last());
            if all.contains(id) && id != all.last() {
                let k = choose|k: int| 0 <= k < all.len() && all[k] == id;
                assert(before[k] == id);
            }
        }
    }
}

/// The processors are known once their table was found. A table counts as taken
/// over once it was registered. Only a list that cannot be read, or a table that
/// cannot be registered, ends the discovery early.
pub proof fn law_firmware_tables_are_taken_over(
    before: AcpiView,
    step: DiscoverStep,
    event: DiscoverEvent,
)
    ensures
        ({
            let (after, next) = Acpi::discovered(before, step, event);
            &&& after.madt != before.madt ==> step is RegisterMadt && after.madt && (event
                matches DiscoverEvent::Registered(Ok(_)))
            &&& after.hpet != before.hpet ==> step is RegisterHpet && after.hpet && (event
                matches DiscoverEvent::Registered(Ok(_)))
            &&& after.cpus != before.cpus ==> step is FindMadt && after.cpus is Some
                && after.cpus->Some_0.len() > 0
            &&& step is Parse && event == DiscoverEvent::Parsed(true) ==> next is FindMadt
            &&& step is Parse && event == DiscoverEvent::Parsed(false) ==> next
                == DiscoverStep::Done(Err(AcpiError::ParseFailed))
            &&& step is FindMadt && (event matches DiscoverEvent::Madt(None)) ==> next is FindHpet
            &&& step is FindMadt && (event matches DiscoverEvent::Madt(Some(_))) ==> next
                is RegisterMadt
            &&& step is RegisterMadt && (event matches DiscoverEvent::Registered(Ok(_))) ==> next
                is FindHpet && after.madt
            &&& step is FindHpet && event == DiscoverEvent::Hpet(true) ==> next is RegisterHpet
            &&& step is FindHpet && event == DiscoverEvent::Hpet(false) ==> (next
                matches DiscoverStep::Done(Ok(_)))
            &&& step is RegisterHpet && (event matches DiscoverEvent::Registered(Ok(_))) ==> (next
                matches DiscoverStep::Done(Ok(_))) && after.hpet
            &&& (step is RegisterMadt || step is RegisterHpet) && (event
                matches DiscoverEvent::Registered(Err(_))) ==> (next
                matches DiscoverStep::Done(Err(AcpiError::NamespaceInitFailed(_))))
        }),
{
}

/// The firmware device is there once its namespace was made, it was registered and
/// it has taken over the tables, in that order.
pub proof fn law_firmware_device_comes_up_in_order(
    step: AcpiProbeStep,
    event: AcpiProbeEvent,
    handle: Handle,
)
    ensures
        step.after(event) == AcpiProbeStep::Done(Ok(Some(handle))) ==> step == AcpiProbeStep::Done(
            Ok(Some(handle)),
        ) || (step == AcpiProbeStep::Discover(handle) && (event matches AcpiProbeEvent::Discovered(
            Ok(Ok(_)),
        ))),
        step.after(event) == AcpiProbeStep::Discover(handle) ==> step == AcpiProbeStep::Discover(
            handle,
        ) || (step is Register && event == AcpiProbeEvent::Registered(
            Ok::<Handle, ObjectError>(handle),
        )),
        step.after(event) is Register ==> step is Register || step is CreateNamespace,
        step is Discover && (event matches AcpiProbeEvent::Discovered(Ok(Err(_)))) ==> (
        step.after(event) matches AcpiProbeStep::Done(Err(_))),
{
}

} // verus!
