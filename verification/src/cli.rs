//! The command line: what is asked for, with which options, and what the
//! subcommands decide.

use crate::bench::{parse_fx_list, run, run_seq, Bench};
use crate::eink::{
    to_coord, DriverError, FixScreenInfo, FxStruct, VarScreenInfo,
    FBIO_EINK_RESTORE_DISPLAY_NEW, FBIO_EINK_RESTORE_DISPLAY_OLD, FBIO_EINK_UPDATE_DISPLAY_FX_NEW,
    FBIO_EINK_UPDATE_DISPLAY_FX_OLD,
};
use crate::fx::{KIND_FULL, KIND_PAGE_TURN, KIND_UI, MODE_CONSERVATIVE, MODE_FAST};
use crate::text::{
    parse_i32, parse_u32, parse_u64, read_fields, read_i32, same_text, trim_end_text, trim_text,
};
use vstd::prelude::*;

verus! {

/// The words of the command line, without the name of the program.
#[derive(Debug)]
pub struct Args(pub Vec<String>);

/// The word behind the first occurrence of `name`.
pub open spec fn flag_value(words: Seq<Seq<char>>, name: Seq<char>) -> Option<Seq<char>> {
    match words.index_of_first(name) {
        Some(i) => if i + 1 < words.len() {
            Some(words[i + 1])
        } else {
            None
        },
        None => None,
    }
}

/// The `i32` that an option gives, or else the default.
pub open spec fn i32_option(words: Seq<Seq<char>>, name: Seq<char>, default: i32) -> i32 {
    match flag_value(words, name) {
        Some(word) => match crate::text::integer_i32(word) {
            Some(n) => n,
            None => default,
        },
        None => default,
    }
}

/// The natural number up to `limit` that an option gives, or else the default.
pub open spec fn natural_option(
    words: Seq<Seq<char>>,
    name: Seq<char>,
    limit: u64,
    default: u64,
) -> u64 {
    match flag_value(words, name) {
        Some(word) => match crate::text::natural_upto(word, limit) {
            Some(n) => n,
            None => default,
        },
        None => default,
    }
}

/// The text that an option gives, or else the default.
pub open spec fn text_option(
    words: Seq<Seq<char>>,
    name: Seq<char>,
    default: Seq<char>,
) -> Seq<char> {
    match flag_value(words, name) {
        Some(word) => word,
        None => default,
    }
}

impl Args {
    /// The words as texts.
    pub open spec fn words(self) -> Seq<Seq<char>> {
        self.0@.map_values(|word: String| word@)
    }

    /// The word behind the first occurrence of `name`, if there is one.
    pub fn flag(&self, name: &str) -> (value: Option<String>)
        ensures
            match value {
                Some(word) => flag_value(self.words(), name@) == Some(word@),
                None => flag_value(self.words(), name@) is None,
            },
    {
        let ghost words = self.words();
        proof {
            words.index_of_first_ensures(name@);
        }
        let mut i: usize = 0;
        while i < self.0.len()
            invariant
                i <= self.0@.len(),
                words == self.words(),
                forall|j: int| 0 <= j < i ==> #[trigger] words[j] != name@,
            decreases self.0.len() - i,
        {
            assert(words[i as int] == self.0@[i as int]@);
            if same_text(self.0[i].as_str(), name) {
                assert(words.contains(name@));
                assert(words.index_of_first(name@) == Some(i as int)) by {
                    words.index_of_first_ensures(name@);
                }
                if i + 1 < self.0.len() {
                    assert(words[i + 1] == self.0@[i + 1]@);
                    return Some(self.0[i + 1].clone());
                }
                return None;
            }
            i += 1;
        }
        assert(!words.contains(name@));
        None
    }

    /// Whether one of the words is `name`.
    pub fn has(&self, name: &str) -> (b: bool)
        ensures
            b == self.words().contains(name@),
    {
        let ghost words = self.words();
        let mut i: usize = 0;
        while i < self.0.len()
            invariant
                i <= self.0@.len(),
                words == self.words(),
                forall|j: int| 0 <= j < i ==> #[trigger] words[j] != name@,
            decreases self.0.len() - i,
        {
            assert(words[i as int] == self.0@[i as int]@);
            if same_text(self.0[i].as_str(), name) {
                assert(words.contains(name@));
                return true;
            }
            i += 1;
        }
        assert(!words.contains(name@));
        false
    }

    /// The `i32` that an option gives, or else the default.
    pub fn i32_or(&self, name: &str, default: i32) -> (n: i32)
        ensures
            n == i32_option(self.words(), name@, default),
    {
        match self.flag(name) {
            Some(word) => match parse_i32(word.as_str()) {
                Some(n) => n,
                None => default,
            },
            None => default,
        }
    }

    /// The `u32` that an option gives, or else the default.
    pub fn u32_or(&self, name: &str, default: u32) -> (n: u32)
        ensures
            n == natural_option(self.words(), name@, u32::MAX as u64, default as u64),
    {
        match self.flag(name) {
            Some(word) => match parse_u32(word.as_str()) {
                Some(n) => n,
                None => default,
            },
            None => default,
        }
    }

    /// The `u64` that an option gives, or else the default.
    pub fn u64_or(&self, name: &str, default: u64) -> (n: u64)
        ensures
            n == natural_option(self.words(), name@, u64::MAX, default),
    {
        match self.flag(name) {
            Some(word) => match parse_u64(word.as_str()) {
                Some(n) => n,
                None => default,
            },
            None => default,
        }
    }

    /// The text that an option gives, or else the default.
    pub fn text_or(&self, name: &str, default: &str) -> (text: String)
        ensures
            text@ == text_option(self.words(), name@, default@),
    {
        match self.flag(name) {
            Some(word) => word,
            None => default.to_owned(),
        }
    }
}

/// A subcommand.
#[derive(Debug, Clone, Copy, PartialEq, Eq, Structural)]
pub enum Command {
    Version,
    Info,
    Refresh,
    Flash,
    Restore,
    FxUpdate,
    Bench,
    /// There is no such subcommand: show how the program is used.
    Usage,
}

/// The subcommand that a word names.
pub open spec fn command_named(word: Seq<char>) -> Command {
    if word == "--version"@ || word == "version"@ {
        Command::Version
    } else if word == "info"@ {
        Command::Info
    } else if word == "refresh"@ {
        Command::Refresh
    } else if word == "flash"@ {
        Command::Flash
    } else if word == "restore"@ {
        Command::Restore
    } else if word == "fxupdate"@ {
        Command::FxUpdate
    } else if word == "bench"@ {
        Command::Bench
    } else {
        Command::Usage
    }
}

/// The subcommand: the first word says it.
pub fn command(args: &Args) -> (command: Command)
    ensures
        command == if args.words().len() == 0 {
            Command::Usage
        } else {
            command_named(args.words()[0])
        },
{
    if args.0.len() == 0 {
        return Command::Usage;
    }
    let word = args.0[0].as_str();
    assert(word@ == args.words()[0]);
    if same_text(word, "--version") || same_text(word, "version") {
        Command::Version
    } else if same_text(word, "info") {
        Command::Info
    } else if same_text(word, "refresh") {
        Command::Refresh
    } else if same_text(word, "flash") {
        Command::Flash
    } else if same_text(word, "restore") {
        Command::Restore
    } else if same_text(word, "fxupdate") {
        Command::FxUpdate
    } else if same_text(word, "bench") {
        Command::Bench
    } else {
        Command::Usage
    }
}

/// The kind of refresh: `--kind ui`, `--kind full`, else a page turn.
pub fn refresh_kind(args: &Args) -> (kind: u32)
    ensures
        kind == match flag_value(args.words(), "--kind"@) {
            Some(word) => if word == "ui"@ {
                KIND_UI
            } else if word == "full"@ {
                KIND_FULL
            } else {
                KIND_PAGE_TURN
            },
            None => KIND_PAGE_TURN,
        },
{
    match args.flag("--kind") {
        Some(word) => if same_text(word.as_str(), "ui") {
            KIND_UI
        } else if same_text(word.as_str(), "full") {
            KIND_FULL
        } else {
            KIND_PAGE_TURN
        },
        None => KIND_PAGE_TURN,
    }
}

/// The mode: `--mode conservative`, else fast.
pub fn refresh_mode(args: &Args) -> (mode: u32)
    ensures
        mode == if flag_value(args.words(), "--mode"@) == Some("conservative"@) {
            MODE_CONSERVATIVE
        } else {
            MODE_FAST
        },
{
    match args.flag("--mode") {
        Some(word) => if same_text(word.as_str(), "conservative") {
            MODE_CONSERVATIVE
        } else {
            MODE_FAST
        },
        None => MODE_FAST,
    }
}

/// The number of page turns in a cycle: `--interval`, else six.
pub fn refresh_interval(args: &Args) -> (interval: u32)
    ensures
        interval == natural_option(args.words(), "--interval"@, u32::MAX as u64, 6),
{
    args.u32_or("--interval", 6)
}

/// The rectangle to refresh: with `--x1` on the command line it is made of the
/// options `--x1`, `--y1`, `--x2` and `--y2`, where an option that is missing or
/// no number leaves that edge at the screen's; without, it is the whole screen.
pub fn refresh_rect(args: &Args, v: &VarScreenInfo) -> (r: (i32, i32, i32, i32))
    ensures
        ({
            let w = crate::eink::signed(v.xres);
            let h = crate::eink::signed(v.yres);
            r == if args.words().contains("--x1"@) {
                (
                    i32_option(args.words(), "--x1"@, 0),
                    i32_option(args.words(), "--y1"@, 0),
                    i32_option(args.words(), "--x2"@, w),
                    i32_option(args.words(), "--y2"@, h),
                )
            } else {
                (0i32, 0i32, w, h)
            }
        }),
{
    let w = to_coord(v.xres);
    let h = to_coord(v.yres);
    if args.has("--x1") {
        (
            args.i32_or("--x1", 0),
            args.i32_or("--y1", 0),
            args.i32_or("--x2", w),
            args.i32_or("--y2", h),
        )
    } else {
        (0, 0, w, h)
    }
}

/// One of the two numberings that the requests of the driver have had.
#[derive(Debug, Clone, Copy, PartialEq, Eq, Structural)]
pub enum Numbering {
    New,
    Old,
}

/// Which numbering is wanted.
#[derive(Debug, Clone, Copy, PartialEq, Eq, Structural)]
pub enum Preference {
    New,
    Old,
    /// The new one, and the old one where that fails.
    Auto,
}

/// The request to push the virtual frame buffer out again.
pub fn restore_request(numbering: Numbering) -> (request: u64)
    ensures
        request == match numbering {
            Numbering::New => FBIO_EINK_RESTORE_DISPLAY_NEW,
            Numbering::Old => FBIO_EINK_RESTORE_DISPLAY_OLD,
        },
{
    match numbering {
        Numbering::New => FBIO_EINK_RESTORE_DISPLAY_NEW,
        Numbering::Old => FBIO_EINK_RESTORE_DISPLAY_OLD,
    }
}

/// The request to refresh the screen with a per-pixel effect.
pub fn fxupdate_request(numbering: Numbering) -> (request: u64)
    ensures
        request == match numbering {
            Numbering::New => FBIO_EINK_UPDATE_DISPLAY_FX_NEW,
            Numbering::Old => FBIO_EINK_UPDATE_DISPLAY_FX_OLD,
        },
{
    match numbering {
        Numbering::New => FBIO_EINK_UPDATE_DISPLAY_FX_NEW,
        Numbering::Old => FBIO_EINK_UPDATE_DISPLAY_FX_OLD,
    }
}

/// The numbering that is wanted: `--cmd new`, `--cmd old`, else whichever works.
pub fn preference(args: &Args) -> (preference: Preference)
    ensures
        preference == if flag_value(args.words(), "--cmd"@) == Some("new"@) {
            Preference::New
        } else if flag_value(args.words(), "--cmd"@) == Some("old"@) {
            Preference::Old
        } else {
            Preference::Auto
        },
{
    match args.flag("--cmd") {
        Some(word) => if same_text(word.as_str(), "new") {
            Preference::New
        } else if same_text(word.as_str(), "old") {
            Preference::Old
        } else {
            Preference::Auto
        },
        None => Preference::Auto,
    }
}

/// What comes next in an attempt to get a request through.
#[derive(Debug, Clone, Copy, PartialEq, Eq, Structural)]
pub enum ProbeStep {
    /// Make the request in this numbering, and hand the reply to `probed`.
    Try { numbering: Numbering },
    /// The request went through in this numbering.
    Accepted { numbering: Numbering },
    /// The request failed in every numbering that was wanted, last with this error.
    Refused { error: DriverError },
}

/// The numbering to begin with.
pub open spec fn first_numbering(preference: Preference) -> Numbering {
    match preference {
        Preference::Old => Numbering::Old,
        _ => Numbering::New,
    }
}

/// The step after a request got a reply.
pub open spec fn probed_step(
    preference: Preference,
    tried: Numbering,
    reply: Result<(), DriverError>,
) -> ProbeStep {
    match reply {
        Ok(_) => ProbeStep::Accepted { numbering: tried },
        Err(error) => if preference == Preference::Auto && tried == Numbering::New {
            ProbeStep::Try { numbering: Numbering::Old }
        } else {
            ProbeStep::Refused { error }
        },
    }
}

/// Starts to make a request.
pub fn probe(preference: Preference) -> (step: ProbeStep)
    ensures
        step == (ProbeStep::Try { numbering: first_numbering(preference) }),
{
    match preference {
        Preference::Old => ProbeStep::Try { numbering: Numbering::Old },
        _ => ProbeStep::Try { numbering: Numbering::New },
    }
}

/// Goes on once the request got a reply.
pub fn probed(preference: Preference, tried: Numbering, reply: Result<(), DriverError>) -> (step:
    ProbeStep)
    ensures
        step == probed_step(preference, tried, reply),
{
    match reply {
        Ok(_) => ProbeStep::Accepted { numbering: tried },
        Err(error) => if preference == Preference::Auto && tried == Numbering::New {
            ProbeStep::Try { numbering: Numbering::Old }
        } else {
            ProbeStep::Refused { error }
        },
    }
}

/// The update mode of `restore` and `fxupdate`: `--mode`, else 1.
pub fn update_mode(args: &Args) -> (mode: i32)
    ensures
        mode == i32_option(args.words(), "--mode"@, 1),
{
    args.i32_or("--mode", 1)
}

/// The per-pixel effect: `--which`, else -1 for none.
pub fn which_effect(args: &Args) -> (which: i32)
    ensures
        which == i32_option(args.words(), "--which"@, -1i32),
{
    args.i32_or("--which", -1)
}

/// What one piece of a list of coordinates stands for.
pub open spec fn piece_i32() -> spec_fn(Seq<char>) -> Option<i32> {
    |piece: Seq<char>| crate::text::integer_i32(crate::text::trim(piece))
}

/// The numbers in a list separated by commas. What is no number is passed over.
pub open spec fn i32_list(s: Seq<char>) -> Seq<i32> {
    crate::text::pieces(s, ',').filter_map(piece_i32())
}

/// Reads a list of numbers.
pub fn parse_i32_list(s: &str) -> (list: Vec<i32>)
    ensures
        list@ == i32_list(s@),
{
    read_fields(s, read_i32, Ghost(piece_i32()))
}

/// An option that gives a rectangle.
#[derive(Debug, Clone, Copy, PartialEq, Eq, Structural)]
pub enum RectOption {
    /// The option is not there.
    Absent,
    /// The option does not give four numbers, and is to be ignored with a warning.
    Malformed,
    Rect { x1: i32, y1: i32, x2: i32, y2: i32 },
}

/// What an option such as `--exclude X1,Y1,X2,Y2` gives.
pub open spec fn rect_value(words: Seq<Seq<char>>, name: Seq<char>) -> RectOption {
    match flag_value(words, name) {
        Some(word) => {
            let list = i32_list(word);
            if list.len() == 4 {
                RectOption::Rect { x1: list[0], y1: list[1], x2: list[2], y2: list[3] }
            } else {
                RectOption::Malformed
            }
        },
        None => RectOption::Absent,
    }
}

/// Reads an option such as `--exclude X1,Y1,X2,Y2`.
pub fn rect_option(args: &Args, name: &str) -> (r: RectOption)
    ensures
        r == rect_value(args.words(), name@),
{
    match args.flag(name) {
        Some(word) => {
            let list = parse_i32_list(word.as_str());
            if list.len() == 4 {
                RectOption::Rect { x1: list[0], y1: list[1], x2: list[2], y2: list[3] }
            } else {
                RectOption::Malformed
            }
        },
        None => RectOption::Absent,
    }
}

/// The rectangle of an option, if it gives one.
pub open spec fn rects_of(option: RectOption) -> Seq<(i32, i32, i32, i32)> {
    match option {
        RectOption::Rect { x1, y1, x2, y2 } => seq![(x1, y1, x2, y2)],
        _ => Seq::empty(),
    }
}

/// Adds the rectangle of an option, if it gives one.
fn push_rect(fx: &mut FxStruct, option: RectOption)
    ensures
        final(fx).update_mode == old(fx).update_mode,
        final(fx).which_fx == old(fx).which_fx,
        final(fx).exclude_rects@ == old(fx).exclude_rects@ + rects_of(option),
{
    match option {
        RectOption::Rect { x1, y1, x2, y2 } => fx.push_exclude(x1, y1, x2, y2),
        _ => {},
    }
}

/// The refresh that `fxupdate` asks for: `--mode`, `--which`, and the rectangles of
/// `--exclude` and then `--exclude2` left out.
pub fn fxupdate_struct(args: &Args) -> (fx: FxStruct)
    ensures
        fx.update_mode == i32_option(args.words(), "--mode"@, 1),
        fx.which_fx == i32_option(args.words(), "--which"@, -1i32),
        fx.exclude_rects@ == rects_of(rect_value(args.words(), "--exclude"@)) + rects_of(
            rect_value(args.words(), "--exclude2"@),
        ),
{
    let mut fx = FxStruct::new(update_mode(args), which_effect(args));
    push_rect(&mut fx, rect_option(args, "--exclude"));
    push_rect(&mut fx, rect_option(args, "--exclude2"));
    fx
}

/// Whether the benchmark can draw on this screen: it writes one byte for a pixel.
pub fn depth_supported(v: &VarScreenInfo) -> (b: bool)
    ensures
        b == (v.bits_per_pixel == 8),
{
    v.bits_per_pixel == 8
}

/// The benchmark that is asked for: `--n` rounds of the sequence in `--seq`, or else
/// each effect in `--fx` `--n` times. `None` says that `--seq` names no effect.
pub fn bench_start(args: &Args) -> (bench: Option<Bench>)
    ensures
        ({
            let n = natural_option(args.words(), "--n"@, u32::MAX as u64, 20);
            match flag_value(args.words(), "--seq"@) {
                Some(word) => {
                    &&& bench is None <==> crate::bench::fx_list(word).len() == 0
                    &&& bench matches Some(b) ==> {
                        &&& b.plan matches crate::bench::Plan::Sequence { seq, rounds } && seq@
                            == crate::bench::fx_list(word) && rounds == n
                        &&& b.wf()
                        &&& b.rows == 0
                        &&& b.errors == 0
                    }
                },
                None => {
                    &&& bench matches Some(b) && {
                        &&& b.plan matches crate::bench::Plan::Single { fx_list, n: count }
                            && fx_list@ == crate::bench::fx_list(
                            text_option(args.words(), "--fx"@, "partial,fast,slow"@),
                        ) && count == n
                        &&& b.wf()
                        &&& b.rows == 0
                        &&& b.errors == 0
                    }
                },
            }
        }),
{
    let n = args.u32_or("--n", 20);
    match args.flag("--seq") {
        Some(word) => run_seq(parse_fx_list(word.as_str()).as_slice(), n),
        None => {
            let names = args.text_or("--fx", "partial,fast,slow");
            Some(run(parse_fx_list(names.as_str()).as_slice(), n))
        },
    }
}

/// The file for the table: `--out`, else `latency.csv`.
pub fn bench_out(args: &Args) -> (path: String)
    ensures
        path@ == text_option(args.words(), "--out"@, "latency.csv"@),
{
    args.text_or("--out", "latency.csv")
}

/// The pause between measurements in milliseconds: `--delay-ms`, else none.
pub fn bench_delay_ms(args: &Args) -> (ms: u64)
    ensures
        ms == natural_option(args.words(), "--delay-ms"@, u64::MAX, 0),
{
    args.u64_or("--delay-ms", 0)
}

/// What `str::to_uppercase` makes of a text, by the Unicode tables of the standard
/// library.
pub uninterp spec fn uppercase(s: Seq<char>) -> Seq<char>;

/// `str::to_uppercase` returns the uppercase equivalent of a text, which depends on the
/// text alone. What it is for a given text is left unsaid.
pub assume_specification[ str::to_uppercase ](s: &str) -> (r: String)
    ensures
        r@ == uppercase(s@),
;

/// A label, or else `T` where it is empty.
pub open spec fn label_or_t(label: Seq<char>) -> Seq<char> {
    if label.len() == 0 {
        "T"@
    } else {
        label
    }
}

/// Puts `T` in place of an empty label.
pub fn default_label(label: String) -> (r: String)
    ensures
        r@ == label_or_t(label@),
{
    if label.as_str().is_empty() {
        "T".to_owned()
    } else {
        label
    }
}

/// The label of the marker in the benchmark: `--label` without white space at its ends
/// and in upper case, or else `T`.
pub fn bench_label(args: &Args) -> (label: String)
    ensures
        label@ == label_or_t(
            uppercase(crate::text::trim(text_option(args.words(), "--label"@, ""@))),
        ),
{
    let text = args.text_or("--label", "");
    default_label(trim_text(text.as_str()).to_uppercase())
}

/// What `String::from_utf8_lossy` makes of bytes.
pub uninterp spec fn utf8_lossy(bytes: Seq<u8>) -> Seq<char>;

/// `String::from_utf8_lossy` decodes bytes, with replacement characters for what is no
/// UTF-8. Valid UTF-8 is decoded as it is; what comes of other bytes depends on them
/// alone and is left unsaid.
#[verifier::external_body]
fn decode_lossy(bytes: &[u8]) -> (text: String)
    ensures
        text@ == utf8_lossy(bytes@),
        vstd::utf8::valid_utf8(bytes@) ==> vstd::utf8::encode_utf8(text@) == bytes@,
{
    String::from_utf8_lossy(bytes).into_owned()
}

/// The name of the device, as it is shown: without white space at its end.
pub fn id_text(f: &FixScreenInfo) -> (text: String)
    ensures
        text@ == crate::text::trim_end(utf8_lossy(f.id@)),
        vstd::utf8::valid_utf8(f.id@) ==> text@ == crate::text::trim_end(
            vstd::utf8::decode_utf8(f.id@),
        ),
{
    proof {
        vstd::utf8::encode_utf8_decode_utf8(utf8_lossy(f.id@));
    }
    let text = decode_lossy(f.id.as_slice());
    trim_end_text(text.as_str()).to_owned()
}

/// A request is tried at most once in each numbering: after the old one no other is
/// tried, and the new one is followed by the old one only where either would do.
pub proof fn law_probe_ends(
    preference: Preference,
    tried: Numbering,
    reply: Result<(), DriverError>,
)
    ensures
        probed_step(preference, tried, reply) matches ProbeStep::Try { numbering } ==> {
            &&& reply is Err
            &&& preference == Preference::Auto
            &&& tried == Numbering::New
            &&& numbering == Numbering::Old
        },
        reply is Ok <==> probed_step(preference, tried, reply) is Accepted,
        probed_step(preference, Numbering::Old, reply) matches ProbeStep::Refused { error }
            ==> reply == Err::<(), DriverError>(error),
{
}

/// A word in front of the first occurrence of an option, and anything behind its
/// value, does not change what the option gives.
pub proof fn law_first_occurrence_counts(
    before: Seq<Seq<char>>,
    name: Seq<char>,
    value: Seq<char>,
    after: Seq<Seq<char>>,
)
    requires
        !before.contains(name),
    ensures
        flag_value(before + seq![name, value] + after, name) == Some(value),
        flag_value(before, name) is None,
        flag_value(before.push(name), name) is None,
{
    let words = before + seq![name, value] + after;
    let at = before.len() as int;
    words.index_of_first_ensures(name);
    before.index_of_first_ensures(name);
    before.push(name).index_of_first_ensures(name);
    assert(words[at] == name);
    assert(words[at + 1] == value);
    assert(before.push(name)[at] == name);
    assert forall|j: int| 0 <= j < at implies words[j] != name && before.push(name)[j] != name by {
        assert(before[j] == words[j]);
    }
}

/// A list of numbers written with commas between them reads back as the numbers.
pub proof fn law_numbers_read_back(numbers: Seq<i32>)
    requires
        numbers.len() > 0,
    ensures
        i32_list(crate::bench::joined(numbers.map_values(|n: i32| n as int))) == numbers,
    decreases numbers.len(),
{
    let all = numbers.map_values(|n: i32| n as int);
    let last = numbers.last();
    let word = crate::text::decimal_int(last as int);
    lemma_written_number(last);
    if numbers.len() == 1 {
        assert(numbers =~= seq![last]);
    } else {
        let rest = numbers.drop_last();
        law_numbers_read_back(rest);
        assert(all.drop_last() =~= rest.map_values(|n: i32| n as int));
        law_list_of_parts(crate::bench::joined(all.drop_last()), word);
        assert(rest + seq![last] =~= numbers);
    }
}

proof fn lemma_written_number(n: i32)
    ensures
        i32_list(crate::text::decimal_int(n as int)) == seq![n],
{
    let word = crate::text::decimal_int(n as int);
    crate::text::law_decimal_int_reads_back(n as int);
    crate::text::law_single_piece(word, ',');
    lemma_number_has_no_white_space(n as int);
    let none = Seq::<char>::empty();
    crate::text::law_trim_takes_off_white_space(none, word, none);
    assert(none + word + none =~= word);
    let one = seq![word];
    assert(one.drop_last().filter_map(piece_i32()) =~= Seq::empty());
    assert(one.last() == word);
    assert(piece_i32()(word) == Some(n));
    assert(one.filter_map(piece_i32()) =~= seq![n]);
}

proof fn lemma_number_has_no_white_space(n: int)
    ensures
        crate::text::decimal_int(n).len() > 0,
        !crate::text::is_white_space(crate::text::decimal_int(n).first()),
        !crate::text::is_white_space(crate::text::decimal_int(n).last()),
{
    let m: nat = if n < 0 {
        (-n) as nat
    } else {
        n as nat
    };
    let amount = crate::text::decimal(m);
    crate::text::law_decimal_reads_back(m);
    assert(crate::text::is_digit(amount[0]));
    assert(crate::text::is_digit(amount[amount.len() - 1]));
    if n < 0 {
        assert(crate::text::decimal_int(n).last() == amount.last());
    }
}

/// The numbers of two lists with a comma between them are those of the one and then those
/// of the other.
pub proof fn law_list_of_parts(a: Seq<char>, b: Seq<char>)
    ensures
        i32_list(a + seq![','] + b) == i32_list(a) + i32_list(b),
{
    crate::text::law_pieces_of_parts(a, b, ',');
    crate::bench::lemma_filter_map_parts(
        crate::text::pieces(a, ','),
        crate::text::pieces(b, ','),
        piece_i32(),
    );
}

/// Four numbers behind an option, written with commas between them, are the rectangle with
/// these edges, in this order: left, top, right, bottom.
pub proof fn law_rectangle_reads_back(
    before: Seq<Seq<char>>,
    name: Seq<char>,
    after: Seq<Seq<char>>,
    a: i32,
    b: i32,
    c: i32,
    d: i32,
)
    requires
        !before.contains(name),
    ensures
        rect_value(
            before + seq![
                name,
                crate::bench::joined(seq![a as int, b as int, c as int, d as int]),
            ] + after,
            name,
        ) == (RectOption::Rect { x1: a, y1: b, x2: c, y2: d }),
{
    let numbers = seq![a, b, c, d];
    law_numbers_read_back(numbers);
    assert(numbers.map_values(|n: i32| n as int) =~= seq![a as int, b as int, c as int, d as int]);
    law_first_occurrence_counts(
        before,
        name,
        crate::bench::joined(seq![a as int, b as int, c as int, d as int]),
        after,
    );
}

} // verus!
