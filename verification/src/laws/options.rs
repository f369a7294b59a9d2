//! The command line: what the words on it ask for.

#![allow(unused_imports)]

use crate::bench::{parse_fx_list, Bench, Plan};
use crate::cli::{
    bench_delay_ms, bench_label, bench_out, bench_start, command, default_label, depth_supported,
    flag_value, fxupdate_request, fxupdate_struct, id_text, parse_i32_list, preference, probe,
    probed, rect_option, refresh_interval, refresh_kind, refresh_mode, refresh_rect,
    restore_request, update_mode, which_effect, Args, Command, Numbering, Preference, ProbeStep,
    RectOption,
};
use crate::eink::{to_coord, DriverError, FixScreenInfo, FxStruct, VarScreenInfo};
use crate::fx::{KIND_FULL, KIND_PAGE_TURN, KIND_UI, MODE_CONSERVATIVE, MODE_FAST};
use crate::text::{parse_i32, parse_u32, parse_u64, trim_end_text, trim_text};
use vstd::prelude::*;

verus! {

/// Whether this word stands behind the first occurrence of `name`.
pub open spec fn gives(args: Args, name: Seq<char>, word: Seq<char>) -> bool {
    exists|i: int|
        {
            &&& 0 <= i
            &&& i + 1 < args.0@.len()
            &&& #[trigger] args.0@[i]@ == name
            &&& args.0@[i + 1]@ == word
            &&& forall|j: int| 0 <= j < i ==> #[trigger] args.0@[j]@ != name
        }
}

/// Whether no word stands behind an occurrence of `name`.
pub open spec fn gives_nothing(args: Args, name: Seq<char>) -> bool {
    forall|i: int| 0 <= i < args.0@.len() - 1 ==> #[trigger] args.0@[i]@ != name
}

/// An option gives the word behind it or nothing, and not both.
pub proof fn law_option_gives_one_word(args: Args, name: Seq<char>) -> (word: Option<Seq<char>>)
    ensures
        match word {
            Some(w) => gives(args, name, w) && !gives_nothing(args, name),
            None => gives_nothing(args, name),
        },
        word == flag_value(args.words(), name),
        forall|w: Seq<char>| #[trigger] gives(args, name, w) ==> word == Some(w),
{
    let words = args.words();
    words.index_of_first_ensures(name);
    assert(words.len() == args.0@.len());
    assert forall|w: Seq<char>| #[trigger] gives(args, name, w) implies flag_value(words, name)
        == Some(w) by {
        let i = choose|i: int|
            {
                &&& 0 <= i
                &&& i + 1 < args.0@.len()
                &&& #[trigger] args.0@[i]@ == name
                &&& args.0@[i + 1]@ == w
                &&& forall|j: int| 0 <= j < i ==> #[trigger] args.0@[j]@ != name
            };
        assert(words[i] == args.0@[i]@);
        assert(words[i + 1] == args.0@[i + 1]@);
        assert(words.contains(name));
        let at = words.index_of_first(name)->0;
        assert(words[at] == args.0@[at]@);
    }
    match words.index_of_first(name) {
        Some(at) => {
            assert(words[at] == args.0@[at]@);
            if at + 1 < words.len() {
                assert(words[at + 1] == args.0@[at + 1]@);
                assert forall|j: int| 0 <= j < at implies #[trigger] args.0@[j]@ != name by {
                    assert(words[j] == args.0@[j]@);
                }
                assert(gives(args, name, words[at + 1]));
                Some(words[at + 1])
            } else {
                assert forall|i: int| 0 <= i < args.0@.len() - 1 implies #[trigger] args.0@[i]@
                    != name by {
                    assert(words[i] == args.0@[i]@);
                }
                None
            }
        },
        None => {
            assert forall|i: int| 0 <= i < args.0@.len() - 1 implies #[trigger] args.0@[i]@
                != name by {
                assert(words[i] == args.0@[i]@);
                assert(words.contains(words[i]));
            }
            None
        },
    }
}

/// An option is found with the word behind its first occurrence, or not at all.
pub proof fn law_flag(args: Args, name: &str, word: Seq<char>, value: Option<String>)
    requires
        call_ensures(Args::flag, (&args, name), value),
    ensures
        gives(args, name@, word) ==> value is Some && value->0@ == word,
        gives_nothing(args, name@) ==> value is None,
{
    let found = law_option_gives_one_word(args, name@);
}

/// A word is on the command line exactly where one of the words is it.
pub proof fn law_has(args: Args, name: &str, b: bool)
    requires
        call_ensures(Args::has, (&args, name), b),
    ensures
        b <==> exists|i: int| 0 <= i < args.0@.len() && #[trigger] args.0@[i]@ == name@,
{
    let words = args.words();
    if b {
        let i = choose|i: int| 0 <= i < words.len() && words[i] == name@;
        assert(args.0@[i]@ == name@);
    }
    if exists|i: int| 0 <= i < args.0@.len() && #[trigger] args.0@[i]@ == name@ {
        let i = choose|i: int| 0 <= i < args.0@.len() && #[trigger] args.0@[i]@ == name@;
        assert(words[i] == name@);
    }
}

/// An option for an `i32` gives the number that its word reads as; without a word, or with
/// one that is no such number, it gives the default.
pub proof fn law_i32_option(
    args: Args,
    name: &str,
    default: i32,
    word: &str,
    read: Option<i32>,
    n: i32,
)
    requires
        call_ensures(Args::i32_or, (&args, name, default), n),
        call_ensures(parse_i32, (word,), read),
    ensures
        gives(args, name@, word@) && read is Some ==> n == read->0,
        gives(args, name@, word@) && read is None ==> n == default,
        gives_nothing(args, name@) ==> n == default,
{
    let found = law_option_gives_one_word(args, name@);
}

/// An option for a `u32` gives the number that its word reads as; without a word, or with
/// one that is no such number, it gives the default.
pub proof fn law_u32_option(
    args: Args,
    name: &str,
    default: u32,
    word: &str,
    read: Option<u32>,
    n: u32,
)
    requires
        call_ensures(Args::u32_or, (&args, name, default), n),
        call_ensures(parse_u32, (word,), read),
    ensures
        gives(args, name@, word@) && read is Some ==> n == read->0,
        gives(args, name@, word@) && read is None ==> n == default,
        gives_nothing(args, name@) ==> n == default,
{
    let found = law_option_gives_one_word(args, name@);
}

/// An option for a `u64` gives the number that its word reads as; without a word, or with
/// one that is no such number, it gives the default.
pub proof fn law_u64_option(
    args: Args,
    name: &str,
    default: u64,
    word: &str,
    read: Option<u64>,
    n: u64,
)
    requires
        call_ensures(Args::u64_or, (&args, name, default), n),
        call_ensures(parse_u64, (word,), read),
    ensures
        gives(args, name@, word@) && read is Some ==> n == read->0,
        gives(args, name@, word@) && read is None ==> n == default,
        gives_nothing(args, name@) ==> n == default,
{
    let found = law_option_gives_one_word(args, name@);
}

/// An option for a text gives its word, or the default where there is none.
pub proof fn law_text_option(
    args: Args,
    name: &str,
    default: &str,
    word: Seq<char>,
    text: String,
)
    requires
        call_ensures(Args::text_or, (&args, name, default), text),
    ensures
        gives(args, name@, word) ==> text@ == word,
        gives_nothing(args, name@) ==> text@ == default@,
{
    let found = law_option_gives_one_word(args, name@);
}

/// The subcommand is the one that the first word names; any other word, and none at all,
/// asks how the program is used.
pub proof fn law_command(args: Args, asked: Command)
    requires
        call_ensures(command, (&args,), asked),
    ensures
        args.0@.len() == 0 ==> asked == Command::Usage,
        args.0@.len() > 0 ==> {
            let word = args.0@[0]@;
            &&& asked == Command::Version <==> word == "--version"@ || word == "version"@
            &&& asked == Command::Info <==> word == "info"@
            &&& asked == Command::Refresh <==> word == "refresh"@
            &&& asked == Command::Flash <==> word == "flash"@
            &&& asked == Command::Restore <==> word == "restore"@
            &&& asked == Command::FxUpdate <==> word == "fxupdate"@
            &&& asked == Command::Bench <==> word == "bench"@
        },
{
    reveal_strlit("--version");
    reveal_strlit("version");
    reveal_strlit("info");
    reveal_strlit("refresh");
    reveal_strlit("flash");
    reveal_strlit("restore");
    reveal_strlit("fxupdate");
    reveal_strlit("bench");
    assert("version"@[0] == 'v' && "refresh"@[0] == 'r' && "restore"@[2] == 's');
    assert("refresh"@[2] == 'f' && "flash"@[0] == 'f' && "bench"@[0] == 'b');
    if args.0@.len() > 0 {
        assert(args.words()[0] == args.0@[0]@);
    }
}

/// The kind of a refresh is the user interface or an explicit full refresh where `--kind`
/// says so, and else a page turn.
pub proof fn law_refresh_kind(args: Args, word: Seq<char>, kind: u32)
    requires
        call_ensures(refresh_kind, (&args,), kind),
    ensures
        gives(args, "--kind"@, word) ==> {
            &&& kind == KIND_UI <==> word == "ui"@
            &&& kind == KIND_FULL <==> word == "full"@
            &&& kind == KIND_UI || kind == KIND_FULL || kind == KIND_PAGE_TURN
        },
        gives_nothing(args, "--kind"@) ==> kind == KIND_PAGE_TURN,
{
    reveal_strlit("ui");
    reveal_strlit("full");
    assert("ui"@.len() == 2 && "full"@.len() == 4);
    let found = law_option_gives_one_word(args, "--kind"@);
}

/// The mode is conservative exactly where `--mode` says so, and else fast.
pub proof fn law_refresh_mode(args: Args, word: Seq<char>, mode: u32)
    requires
        call_ensures(refresh_mode, (&args,), mode),
    ensures
        gives(args, "--mode"@, word) ==> (mode == MODE_CONSERVATIVE <==> word == "conservative"@),
        gives_nothing(args, "--mode"@) ==> mode == MODE_FAST,
        mode == MODE_CONSERVATIVE || mode == MODE_FAST,
{
    let found = law_option_gives_one_word(args, "--mode"@);
}

/// The numbering is the new or the old one where `--cmd` says so, and else whichever works.
pub proof fn law_preference(args: Args, word: Seq<char>, wanted: Preference)
    requires
        call_ensures(preference, (&args,), wanted),
    ensures
        gives(args, "--cmd"@, word) ==> {
            &&& wanted == Preference::New <==> word == "new"@
            &&& wanted == Preference::Old <==> word == "old"@
        },
        gives_nothing(args, "--cmd"@) ==> wanted == Preference::Auto,
{
    reveal_strlit("new");
    reveal_strlit("old");
    assert("new"@[0] == 'n' && "old"@[0] == 'o');
    let found = law_option_gives_one_word(args, "--cmd"@);
}

/// The options for numbers and texts, each with its name and its default: `--interval` with
/// 6, `--mode` with 1, `--which` with -1, `--out` with `latency.csv` and `--delay-ms` with 0.
pub proof fn law_named_options(
    args: Args,
    interval_name: &str,
    interval: u32,
    asked_interval: u32,
    mode_name: &str,
    mode: i32,
    asked_mode: i32,
    which_name: &str,
    which: i32,
    asked_which: i32,
    out_name: &str,
    out_default: &str,
    out: String,
    asked_out: String,
    delay_name: &str,
    delay: u64,
    asked_delay: u64,
)
    requires
        interval_name@ == "--interval"@,
        mode_name@ == "--mode"@,
        which_name@ == "--which"@,
        out_name@ == "--out"@,
        out_default@ == "latency.csv"@,
        delay_name@ == "--delay-ms"@,
        call_ensures(Args::u32_or, (&args, interval_name, 6u32), interval),
        call_ensures(Args::i32_or, (&args, mode_name, 1i32), mode),
        call_ensures(Args::i32_or, (&args, which_name, -1i32), which),
        call_ensures(Args::text_or, (&args, out_name, out_default), out),
        call_ensures(Args::u64_or, (&args, delay_name, 0u64), delay),
        call_ensures(refresh_interval, (&args,), asked_interval),
        call_ensures(update_mode, (&args,), asked_mode),
        call_ensures(which_effect, (&args,), asked_which),
        call_ensures(bench_out, (&args,), asked_out),
        call_ensures(bench_delay_ms, (&args,), asked_delay),
    ensures
        asked_interval == interval,
        asked_mode == mode,
        asked_which == which,
        asked_out@ == out@,
        asked_delay == delay,
{
}

/// The rectangle of a refresh is the whole screen, unless `--x1` is on the command line:
/// then each edge is what its option gives, and the screen's where it gives no number.
pub proof fn law_refresh_rect(
    args: Args,
    v: VarScreenInfo,
    w: i32,
    h: i32,
    r: (i32, i32, i32, i32),
    x1_name: &str,
    y1_name: &str,
    x2_name: &str,
    y2_name: &str,
    asked: bool,
    x1: i32,
    y1: i32,
    x2: i32,
    y2: i32,
)
    requires
        call_ensures(to_coord, (v.xres,), w),
        call_ensures(to_coord, (v.yres,), h),
        x1_name@ == "--x1"@,
        y1_name@ == "--y1"@,
        x2_name@ == "--x2"@,
        y2_name@ == "--y2"@,
        call_ensures(refresh_rect, (&args, &v), r),
        call_ensures(Args::has, (&args, x1_name), asked),
        call_ensures(Args::i32_or, (&args, x1_name, 0i32), x1),
        call_ensures(Args::i32_or, (&args, y1_name, 0i32), y1),
        call_ensures(Args::i32_or, (&args, x2_name, w), x2),
        call_ensures(Args::i32_or, (&args, y2_name, h), y2),
    ensures
        asked ==> r.0 == x1 && r.1 == y1 && r.2 == x2 && r.3 == y2,
        !asked ==> r.0 == 0 && r.1 == 0 && r.2 == w && r.3 == h,
{
}

/// The requests have these numbers.
pub proof fn law_request_numbers(
    restore_new: u64,
    restore_old: u64,
    fxupdate_new: u64,
    fxupdate_old: u64,
)
    requires
        call_ensures(restore_request, (Numbering::New,), restore_new),
        call_ensures(restore_request, (Numbering::Old,), restore_old),
        call_ensures(fxupdate_request, (Numbering::New,), fxupdate_new),
        call_ensures(fxupdate_request, (Numbering::Old,), fxupdate_old),
    ensures
        restore_new == 0x46ef,
        restore_old == 0x4644,
        fxupdate_new == 0x46e4,
        fxupdate_old == 0x4642,
{
}

/// A request goes out in the numbering that is wanted, and where either would do in the
/// new one.
pub proof fn law_probe(wanted: Preference, step: ProbeStep)
    requires
        call_ensures(probe, (wanted,), step),
    ensures
        wanted == Preference::Old ==> step == (ProbeStep::Try { numbering: Numbering::Old }),
        wanted != Preference::Old ==> step == (ProbeStep::Try { numbering: Numbering::New }),
{
}

/// A request that went through is accepted in the numbering that was tried. One that
/// failed is refused with its error, unless the new numbering was tried and either would
/// do: then the old one is tried.
pub proof fn law_probed(
    wanted: Preference,
    tried: Numbering,
    reply: Result<(), DriverError>,
    step: ProbeStep,
)
    requires
        call_ensures(probed, (wanted, tried, reply), step),
    ensures
        reply is Ok ==> step == (ProbeStep::Accepted { numbering: tried }),
        reply is Err && wanted == Preference::Auto && tried == Numbering::New ==> step == (
        ProbeStep::Try { numbering: Numbering::Old }),
        reply is Err && (wanted != Preference::Auto || tried == Numbering::Old) ==> step == (
        ProbeStep::Refused { error: reply->Err_0 }),
{
}

/// The numbers of two lists with a comma between them are those of the one and then those
/// of the other.
pub proof fn law_numbers_of_parts(
    a: &str,
    b: &str,
    s: &str,
    of_a: Vec<i32>,
    of_b: Vec<i32>,
    of_s: Vec<i32>,
)
    requires
        s@ == a@ + seq![','] + b@,
        call_ensures(parse_i32_list, (a,), of_a),
        call_ensures(parse_i32_list, (b,), of_b),
        call_ensures(parse_i32_list, (s,), of_s),
    ensures
        of_s@ == of_a@ + of_b@,
{
    crate::cli::law_list_of_parts(a@, b@);
}

/// A list without a comma gives the number that it reads as, with any white space around
/// it, and nothing where it is no number.
pub proof fn law_number_of_a_word(s: &str, word: &str, read: Option<i32>, list: Vec<i32>)
    requires
        !s@.contains(','),
        call_ensures(trim_text, (s,), word),
        call_ensures(parse_i32, (word,), read),
        call_ensures(parse_i32_list, (s,), list),
    ensures
        read is Some ==> list@ == seq![read->0],
        read is None ==> list@.len() == 0,
{
    crate::text::law_single_piece(s@, ',');
    let one = seq![s@];
    let f = crate::cli::piece_i32();
    assert(one.drop_last().filter_map(f) =~= Seq::empty());
    assert(one.last() == s@);
    assert(f(s@) == read);
    match read {
        Some(n) => {
            assert(one.filter_map(f) =~= seq![n]);
        },
        None => {
            assert(one.filter_map(f) =~= Seq::empty());
        },
    }
}

/// An option for a rectangle gives the four numbers in its word as left, top, right and
/// bottom edge; a word that does not hold four numbers is malformed, and without a word
/// the option is absent.
pub proof fn law_rect_option(args: Args, name: &str, word: &str, list: Vec<i32>, r: RectOption)
    requires
        call_ensures(rect_option, (&args, name), r),
        call_ensures(parse_i32_list, (word,), list),
    ensures
        gives(args, name@, word@) && list@.len() == 4 ==> r == (RectOption::Rect {
            x1: list@[0],
            y1: list@[1],
            x2: list@[2],
            y2: list@[3],
        }),
        gives(args, name@, word@) && list@.len() != 4 ==> r == RectOption::Malformed,
        gives_nothing(args, name@) ==> r == RectOption::Absent,
{
    let found = law_option_gives_one_word(args, name@);
}

/// Any four numbers behind an option, with commas between them, are its rectangle.
pub proof fn law_rect_of_four_numbers(
    args: Args,
    name: &str,
    x1: i32,
    y1: i32,
    x2: i32,
    y2: i32,
    r: RectOption,
)
    requires
        call_ensures(rect_option, (&args, name), r),
        gives(
            args,
            name@,
            crate::text::decimal_int(x1 as int) + seq![','] + crate::text::decimal_int(y1 as int)
                + seq![','] + crate::text::decimal_int(x2 as int) + seq![',']
                + crate::text::decimal_int(y2 as int),
        ),
    ensures
        r == (RectOption::Rect { x1, y1, x2, y2 }),
{
    let found = law_option_gives_one_word(args, name@);
    let numbers = seq![x1, y1, x2, y2];
    let all = seq![x1 as int, y1 as int, x2 as int, y2 as int];
    crate::cli::law_numbers_read_back(numbers);
    assert(numbers.map_values(|n: i32| n as int) =~= all);
    reveal_with_fuel(crate::bench::joined, 5);
    assert(all.drop_last() =~= seq![x1 as int, y1 as int, x2 as int]);
    assert(all.drop_last().drop_last() =~= seq![x1 as int, y1 as int]);
    assert(all.drop_last().drop_last().drop_last() =~= seq![x1 as int]);
}

/// The refresh that `fxupdate` asks for has the mode and the effect of their options, and
/// leaves out the rectangle of `--exclude` and then that of `--exclude2`, each only where
/// the option gives one.
pub proof fn law_fxupdate(
    args: Args,
    fx: FxStruct,
    mode: i32,
    which: i32,
    first_name: &str,
    second_name: &str,
    first: RectOption,
    second: RectOption,
)
    requires
        first_name@ == "--exclude"@,
        second_name@ == "--exclude2"@,
        call_ensures(fxupdate_struct, (&args,), fx),
        call_ensures(update_mode, (&args,), mode),
        call_ensures(which_effect, (&args,), which),
        call_ensures(rect_option, (&args, first_name), first),
        call_ensures(rect_option, (&args, second_name), second),
    ensures
        fx.update_mode == mode,
        fx.which_fx == which,
        fx.exclude_rects@.len() == (if first is Rect {
            1int
        } else {
            0
        }) + (if second is Rect {
            1int
        } else {
            0
        }),
        first matches RectOption::Rect { x1, y1, x2, y2 } ==> fx.exclude_rects@[0] == (
            x1,
            y1,
            x2,
            y2,
        ),
        second matches RectOption::Rect { x1, y1, x2, y2 } ==> fx.exclude_rects@.last() == (
            x1,
            y1,
            x2,
            y2,
        ),
{
}

/// The benchmark draws only where a pixel has eight bits.
pub proof fn law_depth(v: VarScreenInfo, b: bool)
    requires
        call_ensures(depth_supported, (&v,), b),
    ensures
        b <==> v.bits_per_pixel == 8,
{
}

/// With `--seq` the benchmark goes through the effects that it names, in `--n` rounds,
/// and there is none where it names no effect.
pub proof fn law_bench_of_a_sequence(
    args: Args,
    n_name: &str,
    n: u32,
    word: &str,
    list: Vec<i32>,
    bench: Option<Bench>,
)
    requires
        n_name@ == "--n"@,
        call_ensures(Args::u32_or, (&args, n_name, 20u32), n),
        gives(args, "--seq"@, word@),
        call_ensures(parse_fx_list, (word,), list),
        call_ensures(bench_start, (&args,), bench),
    ensures
        bench is None <==> list@.len() == 0,
        bench matches Some(b) ==> {
            &&& b.plan is Sequence
            &&& b.plan->seq@ == list@
            &&& b.plan->rounds == n
            &&& b.rows == 0
            &&& b.errors == 0
        },
{
    let found = law_option_gives_one_word(args, "--seq"@);
}

/// Without `--seq` the benchmark times the effects that `--fx` names, or else all three,
/// each `--n` times.
pub proof fn law_bench_of_single_effects(
    args: Args,
    n_name: &str,
    n: u32,
    fx_name: &str,
    fx_default: &str,
    names: String,
    word: &str,
    list: Vec<i32>,
    bench: Option<Bench>,
)
    requires
        n_name@ == "--n"@,
        call_ensures(Args::u32_or, (&args, n_name, 20u32), n),
        gives_nothing(args, "--seq"@),
        fx_name@ == "--fx"@,
        fx_default@ == "partial,fast,slow"@,
        call_ensures(Args::text_or, (&args, fx_name, fx_default), names),
        word@ == names@,
        call_ensures(parse_fx_list, (word,), list),
        call_ensures(bench_start, (&args,), bench),
    ensures
        bench is Some,
        bench->0.plan is Single,
        bench->0.plan->fx_list@ == list@,
        bench->0.plan->n == n,
        bench->0.rows == 0,
        bench->0.errors == 0,
{
    let found = law_option_gives_one_word(args, "--seq"@);
}

/// A label stays as it is, and `T` stands in for an empty one.
pub proof fn law_default_label(label: String, r: String)
    requires
        call_ensures(default_label, (label,), r),
    ensures
        label@.len() > 0 ==> r@ == label@,
        label@.len() == 0 ==> r@.len() == 1 && r@[0] == 'T',
{
    reveal_strlit("T");
}

/// The label of the marker is the word of `--label`, or else the empty text, without white
/// space at its ends, in upper case, and with `T` where nothing is left of it.
pub proof fn law_bench_label(
    args: Args,
    name: &str,
    default: &str,
    text: String,
    s: &str,
    kept: &str,
    upper: String,
    r: String,
    label: String,
)
    requires
        name@ == "--label"@,
        default@ == ""@,
        call_ensures(Args::text_or, (&args, name, default), text),
        s@ == text@,
        call_ensures(trim_text, (s,), kept),
        call_ensures(str::to_uppercase, (kept,), upper),
        call_ensures(default_label, (upper,), r),
        call_ensures(bench_label, (&args,), label),
    ensures
        label@ == r@,
{
}

/// The name of the device is what its bytes spell, without the white space at the end.
pub proof fn law_id_text(f: FixScreenInfo, kept: Seq<char>, right: Seq<char>, text: String)
    requires
        call_ensures(id_text, (&f,), text),
        f.id@ == vstd::utf8::encode_utf8(kept + right),
        forall|i: int| 0 <= i < right.len() ==> crate::text::is_white_space(#[trigger] right[i]),
        kept.len() > 0 ==> !crate::text::is_white_space(kept.last()),
    ensures
        text@ == kept,
{
    vstd::utf8::encode_utf8_valid_utf8(kept + right);
    vstd::utf8::encode_utf8_decode_utf8(kept + right);
    crate::laws::text::law_trim_end_takes_off_white_space(kept, right);
}

} // verus!
