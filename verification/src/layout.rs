//! The numbers behind the lists and the view of an entry: counts, column widths, the
//! height of wrapped text, the window of a scrolled text, and where the notices go.

use crate::display::DisplayFeed;
use crate::feeds::{EntryView, FeedEntry};
use vstd::prelude::*;

verus! {

/// The narrowest that the column of counts is.
pub const MIN_COUNT_WIDTH: u16 = 5;

/// The widest that the list of errors is.
pub const MAX_ERRORS_WIDTH: u16 = 80;

/// A rectangle of the screen, in cells.
#[derive(Debug, Clone, Copy, PartialEq, Eq, Structural)]
pub struct Area {
    pub x: u16,
    pub y: u16,
    pub width: u16,
    pub height: u16,
}

/// The part of a text that is seen.
#[derive(Debug, Clone, Copy, PartialEq, Eq, Structural)]
pub struct Window {
    /// How far the text is scrolled, once held within what can be scrolled.
    pub scroll: usize,
    /// How far the text can be scrolled.
    pub max_scroll: usize,
    /// The first line that is seen, counted from 1; 0 where none is.
    pub first_visible: usize,
    /// The last line that is seen, counted from 1; 0 where none is.
    pub last_visible: usize,
}

/// How many of `entries` are unread.
pub open spec fn unread(entries: Seq<EntryView>) -> nat
    decreases entries.len(),
{
    if entries.len() == 0 {
        0
    } else if entries.last().read {
        unread(entries.drop_last())
    } else {
        unread(entries.drop_last()) + 1
    }
}

/// How many digits `n` has when written in decimal.
pub open spec fn digits(n: nat) -> nat
    decreases n,
{
    if n < 10 {
        1
    } else {
        1 + digits(n / 10)
    }
}

/// How many lines a line of the width `width` takes when wrapped to `room` columns: one
/// where it is empty, else as many as it fills.
pub open spec fn lines_taken(width: nat, room: nat) -> nat {
    if width == 0 {
        1
    } else if room == 0 {
        width
    } else {
        ((width + room - 1) / (room as int)) as nat
    }
}

/// How many lines the lines of the widths `widths` take together when wrapped.
pub open spec fn height_of(widths: Seq<usize>, room: nat) -> nat
    decreases widths.len(),
{
    if widths.len() == 0 {
        0
    } else {
        height_of(widths.drop_last(), room) + lines_taken(widths.last() as nat, room)
    }
}

/// The smaller of two numbers.
pub open spec fn least(a: int, b: int) -> int {
    if a < b {
        a
    } else {
        b
    }
}

/// `a - b`, and 0 where `b` is the larger.
pub open spec fn minus(a: int, b: int) -> int {
    if a < b {
        0
    } else {
        a - b
    }
}

/// The window of a text of `length` lines in a view of `height` lines, scrolled by
/// `scroll` as far as the text goes.
pub open spec fn window_of(scroll: usize, length: usize, height: usize) -> Window {
    let max_scroll = minus(length as int, height as int);
    let held = least(scroll as int, max_scroll);
    if length == 0 || height == 0 {
        Window {
            scroll: held as usize,
            max_scroll: max_scroll as usize,
            first_visible: 0,
            last_visible: 0,
        }
    } else {
        Window {
            scroll: held as usize,
            max_scroll: max_scroll as usize,
            first_visible: (held + 1) as usize,
            last_visible: (least(held + height - 1, length - 1) + 1) as usize,
        }
    }
}

/// The length of `text` in bytes.
pub open spec fn byte_length(text: Seq<char>) -> usize {
    vstd::utf8::encode_utf8(text).len() as usize
}

/// The width that the source of `entry` takes: the length of the title of its feed in
/// bytes, as far as a width goes, and none where it names no feed.
pub open spec fn source_length(entry: EntryView) -> int {
    match entry.feed_title {
        Some(title) => least(byte_length(title) as int, u16::MAX as int),
        None => 0,
    }
}

/// The width that the count of a feed takes, which shows how many of its entries are
/// unread and how many there are, as in `3/12`.
pub open spec fn count_label_width(unread: nat, total: nat) -> nat {
    digits(unread) + 1 + digits(total)
}

/// Where the list of `errors` errors goes on a screen of the area `area`: in the middle,
/// ten columns narrower than the screen and at most `MAX_ERRORS_WIDTH` wide, four lines
/// higher than the errors are many and four lines lower than the screen at most.
pub open spec fn errors_area(area: Area, errors: nat) -> Area {
    let width = least(minus(area.width as int, 10), MAX_ERRORS_WIDTH as int);
    let height = least(least(errors as int + 4, u16::MAX as int), minus(area.height as int, 4));
    Area {
        x: least(area.x + (area.width - width) / 2, u16::MAX as int) as u16,
        y: least(area.y + (area.height - height) / 2, u16::MAX as int) as u16,
        width: width as u16,
        height: height as u16,
    }
}

/// Where the notice of a fetch goes on a screen of the area `area`, for a line of
/// `line` columns: in the upper right corner, three lines high, two columns wider than
/// the line and two narrower than the screen at most.
pub open spec fn notice_area(area: Area, line: nat) -> Area {
    let width = least(least(line as int + 2, u16::MAX as int), minus(area.width as int, 2));
    Area {
        x: least(
            area.x + minus(area.width as int, least(width + 1, u16::MAX as int)),
            u16::MAX as int,
        ) as u16,
        y: least(area.y + 1, u16::MAX as int) as u16,
        width: width as u16,
        height: 3,
    }
}

/// A number that fits the machine has 20 digits at most.
pub proof fn lemma_digits_bound(n: nat)
    requires
        n <= u64::MAX,
    ensures
        1 <= digits(n) <= 20,
{
    reveal_with_fuel(digits, 21);
}

/// A line that is not empty takes the whole lines that it fills and one more for what
/// is left over.
pub proof fn lemma_lines_taken(width: int, room: int)
    requires
        width >= 0,
        room >= 1,
    ensures
        (width + room - 1) / room == if width % room == 0 {
            width / room
        } else {
            width / room + 1
        },
{
    vstd::arithmetic::div_mod::lemma_fundamental_div_mod(width, room);
    vstd::arithmetic::div_mod::lemma_mod_bound(width, room);
    let q = width / room;
    let r = width % room;
    if r == 0 {
        assert(width + room - 1 == q * room + (room - 1)) by (nonlinear_arith)
            requires
                width == room * q + r,
                r == 0,
        ;
        vstd::arithmetic::div_mod::lemma_fundamental_div_mod_converse(
            width + room - 1,
            room,
            q,
            room - 1,
        );
    } else {
        assert(width + room - 1 == (q + 1) * room + (r - 1)) by (nonlinear_arith)
            requires
                width == room * q + r,
        ;
        vstd::arithmetic::div_mod::lemma_fundamental_div_mod_converse(
            width + room - 1,
            room,
            q + 1,
            r - 1,
        );
    }
}

/// How many of `entries` are unread.
pub fn unread_count(entries: &[FeedEntry]) -> (r: usize)
    ensures
        r == unread(entries.deep_view()),
{
    let mut count: usize = 0;
    let mut i: usize = 0;
    assert(entries.deep_view().take(0) =~= Seq::<EntryView>::empty());
    while i < entries.len()
        invariant
            i <= entries.len(),
            count == unread(entries.deep_view().take(i as int)),
            count <= i,
        decreases entries.len() - i,
    {
        proof {
            let next = entries.deep_view().take(i + 1);
            assert(next.drop_last() =~= entries.deep_view().take(i as int));
            assert(next.last() == entries[i as int]@);
        }
        if !entries[i].read {
            count += 1;
        }
        i += 1;
    }
    assert(entries.deep_view().take(entries.len() as int) =~= entries.deep_view());
    count
}

/// How many digits `n` has when written in decimal.
pub fn decimal_digits(n: usize) -> (r: u16)
    ensures
        r == digits(n as nat),
        1 <= r <= 20,
{
    proof {
        lemma_digits_bound(n as nat);
    }
    let mut rest: usize = n;
    let mut count: u16 = 1;
    while rest >= 10
        invariant
            count + digits(rest as nat) == digits(n as nat) + 1,
            1 <= digits(n as nat) <= 20,
            1 <= count,
        decreases rest,
    {
        rest = rest / 10;
        count += 1;
    }
    count
}

/// The width of the column of counts, which shows for each feed how many of its entries
/// are unread and how many there are, as in `3/12`: as wide as the widest of these, and
/// `MIN_COUNT_WIDTH` at least.
pub fn count_width(feeds: &Vec<DisplayFeed>) -> (r: u16)
    ensures
        r >= MIN_COUNT_WIDTH,
        forall|k: int|
            0 <= k < feeds.len() ==> r >= count_label_width(
                unread((#[trigger] feeds.deep_view()[k]).entries()),
                feeds.deep_view()[k].entries().len(),
            ),
        r == MIN_COUNT_WIDTH || exists|k: int|
            0 <= k < feeds.len() && r == count_label_width(
                unread((#[trigger] feeds.deep_view()[k]).entries()),
                feeds.deep_view()[k].entries().len(),
            ),
{
    let mut width: u16 = MIN_COUNT_WIDTH;
    let mut i: usize = 0;
    while i < feeds.len()
        invariant
            i <= feeds.len(),
            width >= MIN_COUNT_WIDTH,
            forall|k: int|
                0 <= k < i ==> width >= count_label_width(
                    unread((#[trigger] feeds.deep_view()[k]).entries()),
                    feeds.deep_view()[k].entries().len(),
                ),
            width == MIN_COUNT_WIDTH || exists|k: int|
                0 <= k < i && width == count_label_width(
                    unread((#[trigger] feeds.deep_view()[k]).entries()),
                    feeds.deep_view()[k].entries().len(),
                ),
        decreases feeds.len() - i,
    {
        let entries = feeds[i].entries();
        assert(feeds.deep_view()[i as int] == feeds[i as int]@);
        let label = decimal_digits(unread_count(entries)) + 1 + decimal_digits(entries.len());
        if label > width {
            width = label;
        }
        i += 1;
    }
    width
}

/// The width of the column that names the source of each entry in the result of a query:
/// the length in bytes of the longest title among the sources, as far as a width goes.
pub fn source_width(entries: &[FeedEntry]) -> (r: u16)
    ensures
        forall|k: int|
            0 <= k < entries.len() ==> r >= source_length(#[trigger] entries.deep_view()[k]),
        r == 0 || exists|k: int|
            0 <= k < entries.len() && r == source_length(#[trigger] entries.deep_view()[k]),
{
    let mut width: u16 = 0;
    let mut i: usize = 0;
    while i < entries.len()
        invariant
            i <= entries.len(),
            forall|k: int| 0 <= k < i ==> width >= source_length(#[trigger] entries.deep_view()[k]),
            width == 0 || exists|k: int|
                0 <= k < i && width == source_length(#[trigger] entries.deep_view()[k]),
        decreases entries.len() - i,
    {
        assert(entries.deep_view()[i as int] == entries[i as int]@);
        if let Some(title) = &entries[i].feed_title {
            let length = title.as_str().len();
            let held: u16 = if length > u16::MAX as usize {
                u16::MAX
            } else {
                length as u16
            };
            assert(held == source_length(entries.deep_view()[i as int]));
            if held > width {
                width = held;
            }
        }
        assert(width >= source_length(entries.deep_view()[i as int]));
        i += 1;
    }
    width
}

/// The width of the column of sources: that of the longest source in the result of a
/// query, and none for a feed.
pub fn source_column(is_query: bool, source_width: u16) -> (r: u16)
    ensures
        r == if is_query {
            source_width
        } else {
            0
        },
{
    if is_query && source_width > 0 {
        source_width
    } else {
        0
    }
}

/// How many lines the lines of the widths `widths` take together when wrapped to
/// `content_width` columns, one column at least: an empty line takes one line, any other
/// as many as it fills. The largest number there is stands for all beyond.
pub fn wrapped_height(widths: &Vec<usize>, content_width: u16) -> (r: usize)
    ensures
        r == least(
            height_of(widths@, if content_width == 0 {
                1
            } else {
                content_width as nat
            }) as int,
            usize::MAX as int,
        ),
{
    let room: usize = if content_width == 0 {
        1
    } else {
        content_width as usize
    };
    let mut total: usize = 0;
    let mut i: usize = 0;
    assert(widths@.take(0) =~= Seq::<usize>::empty());
    while i < widths.len()
        invariant
            i <= widths.len(),
            room >= 1,
            total == least(
                height_of(widths@.take(i as int), room as nat) as int,
                usize::MAX as int,
            ),
        decreases widths.len() - i,
    {
        proof {
            let next = widths@.take(i + 1);
            assert(next.drop_last() =~= widths@.take(i as int));
            assert(next.last() == widths[i as int]);
        }
        let width = widths[i];
        assert(width % room != 0 ==> width / room < usize::MAX) by (nonlinear_arith)
            requires
                room >= 1,
                0 <= width <= usize::MAX,
        ;
        let lines: usize = if width == 0 {
            1
        } else if width % room == 0 {
            width / room
        } else {
            width / room + 1
        };
        assert(lines == lines_taken(width as nat, room as nat)) by {
            lemma_lines_taken(width as int, room as int);
        }
        total = total.saturating_add(lines);
        i += 1;
    }
    assert(widths@.take(widths.len() as int) =~= widths@);
    total
}

/// The window of a text of `content_length` lines in a view of `visible_height` lines:
/// `scroll` held within what can be scrolled, and the first and last line that are seen.
pub fn scroll_window(scroll: usize, content_length: usize, visible_height: usize) -> (r: Window)
    ensures
        r == window_of(scroll, content_length, visible_height),
{
    let max_scroll = content_length.saturating_sub(visible_height);
    let held = if scroll < max_scroll {
        scroll
    } else {
        max_scroll
    };
    if content_length == 0 || visible_height == 0 {
        Window { scroll: held, max_scroll, first_visible: 0, last_visible: 0 }
    } else {
        let end = held + (visible_height - 1);
        let last = if end < content_length - 1 {
            end
        } else {
            content_length - 1
        };
        Window { scroll: held, max_scroll, first_visible: held + 1, last_visible: last + 1 }
    }
}

/// Where the list of `errors` errors goes on a screen of the area `area`.
pub fn error_popup_area(area: Area, errors: usize) -> (r: Area)
    ensures
        r == errors_area(area, errors as nat),
{
    let width = if area.width.saturating_sub(10) < MAX_ERRORS_WIDTH {
        area.width.saturating_sub(10)
    } else {
        MAX_ERRORS_WIDTH
    };
    let wanted: u16 = if errors > (u16::MAX - 4) as usize {
        u16::MAX
    } else {
        errors as u16 + 4
    };
    let height = if wanted < area.height.saturating_sub(4) {
        wanted
    } else {
        area.height.saturating_sub(4)
    };
    Area {
        x: area.x.saturating_add((area.width - width) / 2),
        y: area.y.saturating_add((area.height - height) / 2),
        width,
        height,
    }
}

/// Where the notice of a fetch goes on a screen of the area `area`, for a line of
/// `line` columns.
pub fn notice_popup_area(area: Area, line: usize) -> (r: Area)
    ensures
        r == notice_area(area, line as nat),
{
    let wanted: u16 = if line > (u16::MAX - 2) as usize {
        u16::MAX
    } else {
        line as u16 + 2
    };
    let width = if wanted < area.width.saturating_sub(2) {
        wanted
    } else {
        area.width.saturating_sub(2)
    };
    Area {
        x: area.x.saturating_add(area.width.saturating_sub(width.saturating_add(1))),
        y: area.y.saturating_add(1),
        width,
        height: 3,
    }
}

} // verus!
