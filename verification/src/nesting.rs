//! How deep the text of a definition nests.
//!
//! In a TOML text one thing lies inside another in four ways: an array or
//! an inline table inside a value, a part of a dotted key inside the part
//! before it, and a part of a table's header inside the part before it. A
//! reader of the text descends one level for each.
//!
//! The scan below walks the text once, character by character. It follows
//! the strings and comments of the text as TOML delimits them:
//! - `#` outside a string opens a comment, which ends with its line;
//! - `"` opens a basic string and `'` a literal one; either ends at its next
//!   quote, and with its line at the latest;
//! - in a basic string a backslash takes the character behind it along;
//! - three quotes in a row open a string of several lines, which ends at the
//!   next three of its quotes in a row; up to two more quotes directly
//!   behind them still belong to it.
//!
//! Outside strings and comments the scan keeps the brackets that are open,
//! and knows whether it stands in a key or in a value:
//! - a statement begins with its key, and `=` ends the key;
//! - `[` and `{` in a value open an array and an inline table; the entries
//!   of an inline table begin with a key, the elements of an array do not;
//! - a period counts only in a key, and only until the entry with that key
//!   ends: at the `,` behind an entry of an inline table, and at the end of
//!   the line behind a statement;
//! - a `[` where a statement begins opens a header. Each part of a header
//!   counts two levels, since a part may name the last table of an array of
//!   tables. The header holds for the statements that follow it.
//!
//! The depth at a place is the sum of the levels of the header, of the key
//! of the statement, and of each open bracket with the key of its entry. No
//! value of the text lies deeper than the greatest depth of the scan.

use crate::text::characters;
use vstd::prelude::*;

verus! {

/// The deepest that a definition may nest.
pub const NESTING_LIMIT: u32 = 128;

/// Where a scan stands.
#[derive(Clone, Copy, Debug)]
pub enum Mode {
    /// Outside strings and comments.
    Plain,
    /// In a comment, which ends with its line.
    Comment,
    /// Behind the quote that opens a string. The flag of this and of the
    /// following modes says whether the quote is `"`, or else `'`.
    Opened(bool),
    /// Behind two quotes: an empty string, unless a third quote follows
    /// and opens a string of several lines.
    Paired(bool),
    /// In a string of one line.
    Short(bool),
    /// Behind a backslash in a string of one line.
    ShortEscape,
    /// In a string of several lines, behind this many of its quotes in a
    /// row.
    Long(bool, u8),
    /// Behind a backslash in a string of several lines.
    LongEscape,
    /// Behind the three quotes that close a string of several lines; this
    /// many further quotes still belong to it.
    Closing(bool, u8),
}

/// An open bracket: whether it is that of an inline table, or else of an
/// array, and the periods in the key of the entry at hand.
pub struct Frame {
    pub table: bool,
    pub periods: nat,
}

/// What a scan holds: where it stands, the open brackets from the
/// outermost to the innermost, whether it stands in a key, whether the line
/// is a header, the levels of the header that holds, the levels of the key
/// of the statement, and the greatest depth so far.
pub struct Scan {
    pub mode: Mode,
    pub frames: Seq<Frame>,
    pub key: bool,
    pub heading: bool,
    pub header: nat,
    pub top: nat,
    pub peak: nat,
}

/// The quote of a string: `"` for a basic string, `'` for a literal one.
pub open spec fn quote(basic: bool) -> char {
    if basic {
        '"'
    } else {
        '\''
    }
}

/// The levels of the open brackets: one for each, and one for each period
/// in the key of its entry.
pub open spec fn levels(frames: Seq<Frame>) -> nat
    decreases frames.len(),
{
    if frames.len() == 0 {
        0
    } else {
        levels(frames.drop_last()) + 1 + frames.last().periods
    }
}

/// The depth at which a scan stands.
pub open spec fn depth(scan: Scan) -> nat {
    scan.header + scan.top + levels(scan.frames)
}

/// The scan before the first character: at the key of the first statement.
pub open spec fn start() -> Scan {
    Scan {
        mode: Mode::Plain,
        frames: Seq::empty(),
        key: true,
        heading: false,
        header: 0,
        top: 0,
        peak: 0,
    }
}

/// The scan, standing somewhere else.
pub open spec fn at(scan: Scan, mode: Mode) -> Scan {
    Scan { mode, ..scan }
}

/// The end of a line. Outside every bracket it ends the statement: a
/// header holds from here on, the periods of a key count no longer, and the
/// next statement begins with its key.
pub open spec fn line_end(scan: Scan) -> Scan {
    if scan.frames.len() == 0 {
        Scan {
            mode: Mode::Plain,
            key: true,
            heading: false,
            header: if scan.heading {
                scan.top
            } else {
                scan.header
            },
            top: 0,
            ..scan
        }
    } else {
        at(scan, Mode::Plain)
    }
}

/// A period. In a key it is one level more, and two in a header; in a
/// value it belongs to a number or a date.
pub open spec fn period(scan: Scan) -> Scan {
    if !scan.key {
        at(scan, Mode::Plain)
    } else if scan.frames.len() == 0 {
        Scan {
            mode: Mode::Plain,
            top: scan.top + if scan.heading {
                2nat
            } else {
                1nat
            },
            ..scan
        }
    } else {
        let last = scan.frames.last();
        Scan {
            mode: Mode::Plain,
            frames: scan.frames.update(
                scan.frames.len() - 1,
                Frame { periods: last.periods + 1, ..last },
            ),
            ..scan
        }
    }
}

/// An opening bracket. Where a statement begins, `[` opens a header, whose
/// first part counts two levels and which takes the place of the header
/// before it. Everywhere else the bracket opens an array or an inline
/// table; an inline table begins with the key of its first entry.
pub open spec fn opening(scan: Scan, table: bool) -> Scan {
    if !table && scan.key && scan.frames.len() == 0 {
        if scan.heading {
            at(scan, Mode::Plain)
        } else {
            Scan { mode: Mode::Plain, heading: true, header: 0, top: scan.top + 2, ..scan }
        }
    } else {
        Scan {
            mode: Mode::Plain,
            key: table,
            frames: scan.frames.push(Frame { table, periods: 0 }),
            ..scan
        }
    }
}

/// A closing bracket: the innermost open bracket is closed, if one is
/// open. What follows is not a key.
pub open spec fn closing(scan: Scan) -> Scan {
    Scan {
        mode: Mode::Plain,
        key: false,
        frames: if scan.frames.len() > 0 {
            scan.frames.drop_last()
        } else {
            scan.frames
        },
        ..scan
    }
}

/// A comma. In an inline table it ends an entry: the periods of its key
/// count no longer, and the key of the next entry follows.
pub open spec fn comma(scan: Scan) -> Scan {
    if scan.frames.len() > 0 && scan.frames.last().table {
        Scan {
            mode: Mode::Plain,
            key: true,
            frames: scan.frames.update(
                scan.frames.len() - 1,
                Frame { table: true, periods: 0 },
            ),
            ..scan
        }
    } else {
        at(scan, Mode::Plain)
    }
}

/// A character outside strings and comments.
pub open spec fn plain(scan: Scan, c: char) -> Scan {
    let next = if c == '"' {
        at(scan, Mode::Opened(true))
    } else if c == '\'' {
        at(scan, Mode::Opened(false))
    } else if c == '#' {
        at(scan, Mode::Comment)
    } else if c == '\n' {
        line_end(scan)
    } else if c == '=' {
        Scan { mode: Mode::Plain, key: false, ..scan }
    } else if c == '.' {
        period(scan)
    } else if c == '[' {
        opening(scan, false)
    } else if c == '{' {
        opening(scan, true)
    } else if c == ']' || c == '}' {
        closing(scan)
    } else if c == ',' {
        comma(scan)
    } else {
        at(scan, Mode::Plain)
    };
    Scan {
        peak: if depth(next) > next.peak {
            depth(next)
        } else {
            next.peak
        },
        ..next
    }
}

/// A character in a string of one line, behind its opening quote or
/// further in. The string ends with its line at the latest.
pub open spec fn in_short(scan: Scan, basic: bool, c: char) -> Scan {
    if c == '\n' {
        plain(scan, c)
    } else if basic && c == '\\' {
        at(scan, Mode::ShortEscape)
    } else {
        at(scan, Mode::Short(basic))
    }
}

/// The scan behind one more character.
pub open spec fn step(scan: Scan, c: char) -> Scan {
    match scan.mode {
        Mode::Plain => plain(scan, c),
        Mode::Comment => if c == '\n' {
            plain(scan, c)
        } else {
            scan
        },
        Mode::Opened(basic) => if c == quote(basic) {
            at(scan, Mode::Paired(basic))
        } else {
            in_short(scan, basic, c)
        },
        Mode::Paired(basic) => if c == quote(basic) {
            at(scan, Mode::Long(basic, 0))
        } else {
            plain(scan, c)
        },
        Mode::Short(basic) => if c == quote(basic) {
            at(scan, Mode::Plain)
        } else {
            in_short(scan, basic, c)
        },
        Mode::ShortEscape => if c == '\n' {
            plain(scan, c)
        } else {
            at(scan, Mode::Short(true))
        },
        Mode::Long(basic, run) => if c == quote(basic) {
            if run >= 2 {
                at(scan, Mode::Closing(basic, 2))
            } else {
                at(scan, Mode::Long(basic, (run + 1) as u8))
            }
        } else if basic && c == '\\' {
            at(scan, Mode::LongEscape)
        } else {
            at(scan, Mode::Long(basic, 0))
        },
        Mode::LongEscape => at(scan, Mode::Long(true, 0)),
        Mode::Closing(basic, more) => if c == quote(basic) && more > 0 {
            at(scan, Mode::Closing(basic, (more - 1) as u8))
        } else {
            plain(scan, c)
        },
    }
}

/// The scan behind the first `n` characters of a text.
pub open spec fn scanned(text: Seq<char>, n: nat) -> Scan
    decreases n,
{
    if n == 0 {
        start()
    } else {
        step(scanned(text, (n - 1) as nat), text[n - 1])
    }
}

/// How deep a text nests at most: the greatest depth of its scan.
pub open spec fn nesting(text: Seq<char>) -> nat {
    scanned(text, text.len()).peak
}

/// The greatest depth of a scan never falls.
pub proof fn lemma_peak_grows(text: Seq<char>, i: nat, j: nat)
    requires
        i <= j,
    ensures
        scanned(text, i).peak <= scanned(text, j).peak,
    decreases j - i,
{
    if i < j {
        lemma_peak_grows(text, i, (j - 1) as nat);
    }
}

/// With one more open bracket the levels are those before, one for the
/// bracket and one for each period that it comes with.
proof fn lemma_levels_push(frames: Seq<Frame>, frame: Frame)
    ensures
        levels(frames.push(frame)) == levels(frames) + 1 + frame.periods,
{
    assert(frames.push(frame).drop_last() =~= frames);
}

/// With another innermost bracket in its place the levels change by the
/// periods alone.
proof fn lemma_levels_update(frames: Seq<Frame>, frame: Frame)
    requires
        frames.len() > 0,
    ensures
        levels(frames.update(frames.len() - 1, frame)) + frames.last().periods == levels(frames)
            + frame.periods,
{
    assert(frames.update(frames.len() - 1, frame).drop_last() =~= frames.drop_last());
}

/// An open bracket as the scan keeps it while it runs.
#[derive(Clone, Copy)]
struct Level {
    table: bool,
    periods: u64,
}

impl View for Level {
    type V = Frame;

    closed spec fn view(&self) -> Frame {
        Frame { table: self.table, periods: self.periods as nat }
    }
}

/// A scan as it is run. It keeps the levels of its open brackets as a sum.
struct Counter {
    mode: Mode,
    frames: Vec<Level>,
    inner: u64,
    key: bool,
    heading: bool,
    header: u64,
    top: u64,
    peak: u64,
}

impl View for Counter {
    type V = Scan;

    closed spec fn view(&self) -> Scan {
        Scan {
            mode: self.mode,
            frames: Seq::new(self.frames@.len(), |i: int| self.frames@[i]@),
            key: self.key,
            heading: self.heading,
            header: self.header as nat,
            top: self.top as nat,
            peak: self.peak as nat,
        }
    }
}

impl Counter {
    /// The sum is that of the open brackets, and the scan stands no deeper
    /// than its greatest depth.
    spec fn wf(&self) -> bool {
        &&& self.inner == levels(self@.frames)
        &&& depth(self@) <= self.peak
    }

    /// The scan, standing somewhere else.
    fn at(self, mode: Mode) -> (next: Counter)
        requires
            self.wf(),
        ensures
            next@ == at(self@, mode),
            next.wf(),
            next.peak == self.peak,
    {
        let mut next = self;
        next.mode = mode;
        assert(next@.frames =~= self@.frames);
        next
    }

    /// The scan with its greatest depth brought up to where it stands.
    fn raised(self) -> (next: Counter)
        requires
            self.inner == levels(self@.frames),
            self.header + self.top + self.inner <= u64::MAX,
        ensures
            next@ == (Scan {
                peak: if depth(self@) > self@.peak {
                    depth(self@)
                } else {
                    self@.peak
                },
                ..self@
            }),
            next.wf(),
    {
        let here = self.header + self.top + self.inner;
        let mut next = self;
        if here > next.peak {
            next.peak = here;
        }
        assert(next@.frames =~= self@.frames);
        next
    }

    /// The scan behind a character outside strings and comments.
    fn plain(self, c: char) -> (next: Counter)
        requires
            self.wf(),
            self.peak <= u32::MAX,
        ensures
            next@ == plain(self@, c),
            next.wf(),
    {
        let ghost before = self@;
        let mut next = self;
        if c == '"' {
            next.mode = Mode::Opened(true);
        } else if c == '\'' {
            next.mode = Mode::Opened(false);
        } else if c == '#' {
            next.mode = Mode::Comment;
        } else if c == '\n' {
            next.mode = Mode::Plain;
            if next.frames.len() == 0 {
                next.key = true;
                if next.heading {
                    next.header = next.top;
                }
                next.heading = false;
                next.top = 0;
            }
        } else if c == '=' {
            next.mode = Mode::Plain;
            next.key = false;
        } else if c == '.' {
            next.mode = Mode::Plain;
            if next.key {
                let open = next.frames.len();
                if open == 0 {
                    next.top = next.top + if next.heading {
                        2
                    } else {
                        1
                    };
                } else {
                    let last = next.frames[open - 1];
                    proof {
                        lemma_levels_update(
                            before.frames,
                            Frame { periods: last@.periods + 1, ..last@ },
                        );
                    }
                    next.frames.set(open - 1, Level { table: last.table, periods: last.periods + 1 });
                    next.inner = next.inner + 1;
                }
            }
        } else if c == '[' || c == '{' {
            let table = c == '{';
            next.mode = Mode::Plain;
            if !table && next.key && next.frames.len() == 0 {
                if !next.heading {
                    next.heading = true;
                    next.header = 0;
                    next.top = next.top + 2;
                }
            } else {
                proof {
                    lemma_levels_push(before.frames, Frame { table, periods: 0 });
                }
                next.key = table;
                next.frames.push(Level { table, periods: 0 });
                next.inner = next.inner + 1;
            }
        } else if c == ']' || c == '}' {
            next.mode = Mode::Plain;
            next.key = false;
            if let Some(last) = next.frames.pop() {
                assert(last@ == before.frames.last());
                next.inner = next.inner - 1 - last.periods;
            }
        } else if c == ',' {
            let open = next.frames.len();
            next.mode = Mode::Plain;
            if open > 0 && next.frames[open - 1].table {
                let last = next.frames[open - 1];
                proof {
                    lemma_levels_update(before.frames, Frame { table: true, periods: 0 });
                }
                next.key = true;
                next.frames.set(open - 1, Level { table: true, periods: 0 });
                next.inner = next.inner - last.periods;
            }
        } else {
            next.mode = Mode::Plain;
        }
        proof {
            let expected = if c == '"' {
                at(before, Mode::Opened(true))
            } else if c == '\'' {
                at(before, Mode::Opened(false))
            } else if c == '#' {
                at(before, Mode::Comment)
            } else if c == '\n' {
                line_end(before)
            } else if c == '=' {
                Scan { mode: Mode::Plain, key: false, ..before }
            } else if c == '.' {
                period(before)
            } else if c == '[' {
                opening(before, false)
            } else if c == '{' {
                opening(before, true)
            } else if c == ']' || c == '}' {
                closing(before)
            } else if c == ',' {
                comma(before)
            } else {
                at(before, Mode::Plain)
            };
            assert(next@.frames =~= expected.frames);
            assert(next@ == expected);
        }
        next.raised()
    }

    /// The scan behind a character in a string of one line.
    fn in_short(self, basic: bool, c: char) -> (next: Counter)
        requires
            self.wf(),
            self.peak <= u32::MAX,
        ensures
            next@ == in_short(self@, basic, c),
            next.wf(),
    {
        if c == '\n' {
            self.plain(c)
        } else if basic && c == '\\' {
            self.at(Mode::ShortEscape)
        } else {
            self.at(Mode::Short(basic))
        }
    }

    /// The scan behind one more character.
    fn step(self, c: char) -> (next: Counter)
        requires
            self.wf(),
            self.peak <= u32::MAX,
        ensures
            next@ == step(self@, c),
            next.wf(),
    {
        match self.mode {
            Mode::Plain => self.plain(c),
            Mode::Comment => if c == '\n' {
                self.plain(c)
            } else {
                self
            },
            Mode::Opened(basic) => if c == delimiter(basic) {
                self.at(Mode::Paired(basic))
            } else {
                self.in_short(basic, c)
            },
            Mode::Paired(basic) => if c == delimiter(basic) {
                self.at(Mode::Long(basic, 0))
            } else {
                self.plain(c)
            },
            Mode::Short(basic) => if c == delimiter(basic) {
                self.at(Mode::Plain)
            } else {
                self.in_short(basic, c)
            },
            Mode::ShortEscape => if c == '\n' {
                self.plain(c)
            } else {
                self.at(Mode::Short(true))
            },
            Mode::Long(basic, run) => if c == delimiter(basic) {
                if run >= 2 {
                    self.at(Mode::Closing(basic, 2))
                } else {
                    self.at(Mode::Long(basic, run + 1))
                }
            } else if basic && c == '\\' {
                self.at(Mode::LongEscape)
            } else {
                self.at(Mode::Long(basic, 0))
            },
            Mode::LongEscape => self.at(Mode::Long(true, 0)),
            Mode::Closing(basic, more) => if c == delimiter(basic) && more > 0 {
                self.at(Mode::Closing(basic, more - 1))
            } else {
                self.plain(c)
            },
        }
    }
}

/// The quote of a string.
fn delimiter(basic: bool) -> (c: char)
    ensures
        c == quote(basic),
{
    if basic {
        '"'
    } else {
        '\''
    }
}

/// Whether a text nests no deeper than `limit`. The scan stops where it
/// first goes deeper.
pub fn nests_within(text: &str, limit: u32) -> (within: bool)
    ensures
        within == (nesting(text@) <= limit),
{
    let chars = characters(text);
    let mut scan = Counter {
        mode: Mode::Plain,
        frames: Vec::new(),
        inner: 0,
        key: true,
        heading: false,
        header: 0,
        top: 0,
        peak: 0,
    };
    assert(scan@.frames =~= Seq::<Frame>::empty());
    let mut i: usize = 0;
    while i < chars.len()
        invariant
            i <= chars.len(),
            chars@ == text@,
            scan@ == scanned(text@, i as nat),
            scan.wf(),
            scan.peak <= limit,
        decreases chars.len() - i,
    {
        scan = scan.step(chars[i]);
        i += 1;
        if scan.peak > limit as u64 {
            proof {
                lemma_peak_grows(text@, i as nat, text@.len());
            }
            return false;
        }
    }
    true
}

} // verus!
