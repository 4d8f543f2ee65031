use crate::planner::{join, join_path};
use vstd::prelude::*;
use vstd::string::*;

verus! {

/// The character of a decimal digit.
pub open spec fn digit_char(d: nat) -> char
    recommends
        d < 10,
{
    if d == 0 {
        '0'
    } else if d == 1 {
        '1'
    } else if d == 2 {
        '2'
    } else if d == 3 {
        '3'
    } else if d == 4 {
        '4'
    } else if d == 5 {
        '5'
    } else if d == 6 {
        '6'
    } else if d == 7 {
        '7'
    } else if d == 8 {
        '8'
    } else {
        '9'
    }
}

/// The decimal digits of a positive number, the most significant first;
/// nothing for zero.
pub open spec fn leading_digits(n: nat) -> Seq<char>
    decreases n,
{
    if n == 0 {
        Seq::empty()
    } else {
        leading_digits(n / 10).push(digit_char(n % 10))
    }
}

/// A number written in decimal.
pub open spec fn decimal(n: nat) -> Seq<char> {
    if n == 0 {
        seq!['0']
    } else {
        leading_digits(n)
    }
}

/// The two digits of a number below one hundred.
pub open spec fn two_digits(n: nat) -> Seq<char>
    recommends
        n < 100,
{
    seq![digit_char(n / 10), digit_char(n % 10)]
}

/// `num / den` rounded to the nearest whole number, a tie going to the
/// even one.
#[verifier::opaque]
pub open spec fn round_half_even(num: nat, den: nat) -> nat
    recommends
        den > 0,
{
    let q = num / den;
    let r = num % den;
    if 2 * r > den || (2 * r == den && q % 2 == 1) {
        q + 1
    } else {
        q
    }
}

/// The number of low bits that a size gives up so that 53 significant bits
/// remain: the first `k` from `from` on with `bytes < 2^(53 + k)`.
pub open spec fn spare_bits(bytes: nat, from: nat) -> nat
    decreases 11 - from,
{
    if from >= 11 || bytes < vstd::arithmetic::power2::pow2(53 + from) {
        from
    } else {
        spare_bits(bytes, from + 1)
    }
}

/// A size as it is measured: sizes of more than 53 significant bits are
/// rounded to 53, a tie going to the even neighbour.
pub open spec fn measured(bytes: nat) -> nat {
    let step = vstd::arithmetic::power2::pow2(spare_bits(bytes, 0));
    round_half_even(bytes, step) * step
}

/// The unit in which a size is written: the largest of GB, MB and KB, at
/// multiples of 1024, that the size reaches; 1 where it reaches none.
pub open spec fn unit_of(bytes: nat) -> nat {
    if bytes >= 1073741824 {
        1073741824
    } else if bytes >= 1048576 {
        1048576
    } else if bytes >= 1024 {
        1024
    } else {
        1
    }
}

/// The name of a unit.
pub open spec fn unit_name(unit: nat) -> Seq<char> {
    if unit == 1073741824 {
        " GB"@
    } else if unit == 1048576 {
        " MB"@
    } else if unit == 1024 {
        " KB"@
    } else {
        " bytes"@
    }
}

/// The hundredths of its unit that a size is written with.
pub open spec fn hundredths(bytes: nat) -> nat {
    round_half_even(measured(bytes) * 100, unit_of(bytes))
}

/// A size in words: below 1024 the number of bytes; from there on the size
/// in its unit with two decimals, rounded to the nearest, a tie going to
/// the even hundredth.
pub open spec fn human_readable(bytes: nat) -> Seq<char> {
    if bytes < 1024 {
        decimal(bytes) + " bytes"@
    } else {
        decimal(hundredths(bytes) / 100) + seq!['.'] + two_digits(hundredths(bytes) % 100)
            + unit_name(unit_of(bytes))
    }
}

/// The text of one decimal digit.
fn digit_text(d: u8) -> (text: &'static str)
    requires
        d < 10,
    ensures
        text@ == seq![digit_char(d as nat)],
{
    proof {
        reveal_strlit("0");
        reveal_strlit("1");
        reveal_strlit("2");
        reveal_strlit("3");
        reveal_strlit("4");
        reveal_strlit("5");
        reveal_strlit("6");
        reveal_strlit("7");
        reveal_strlit("8");
        reveal_strlit("9");
    }
    let text = if d == 0 {
        "0"
    } else if d == 1 {
        "1"
    } else if d == 2 {
        "2"
    } else if d == 3 {
        "3"
    } else if d == 4 {
        "4"
    } else if d == 5 {
        "5"
    } else if d == 6 {
        "6"
    } else if d == 7 {
        "7"
    } else if d == 8 {
        "8"
    } else {
        "9"
    };
    assert(text@ =~= seq![digit_char(d as nat)]);
    text
}

/// The digits held in `buf`, least significant first, read from the top.
spec fn top_down(buf: Seq<u8>) -> Seq<char> {
    Seq::new(buf.len(), |i: int| digit_char(buf[buf.len() - 1 - i] as nat))
}

/// Writes a number in decimal at the end of `text`.
pub fn append_decimal(text: &mut String, n: u64)
    ensures
        final(text)@ == old(text)@ + decimal(n as nat),
{
    if n == 0 {
        text.append(digit_text(0));
        return ;
    }
    let mut buf: Vec<u8> = Vec::new();
    let mut rest: u64 = n;
    assert(top_down(buf@) =~= Seq::empty());
    while rest > 0
        invariant
            leading_digits(n as nat) == leading_digits(rest as nat) + top_down(buf@),
            forall|i: int| 0 <= i < buf@.len() ==> buf@[i] < 10,
        decreases rest,
    {
        let ghost before = buf@;
        let d = (rest % 10) as u8;
        buf.push(d);
        assert(top_down(buf@) =~= seq![digit_char(d as nat)] + top_down(before));
        assert(leading_digits(rest as nat) == leading_digits((rest / 10) as nat).push(
            digit_char(d as nat),
        ));
        assert(leading_digits((rest / 10) as nat).push(digit_char(d as nat)) + top_down(before)
            =~= leading_digits((rest / 10) as nat) + top_down(buf@));
        rest = rest / 10;
    }
    assert(leading_digits(n as nat) =~= top_down(buf@));
    let mut i: usize = buf.len();
    while i > 0
        invariant
            i <= buf.len(),
            forall|j: int| 0 <= j < buf@.len() ==> buf@[j] < 10,
            text@ == old(text)@ + top_down(buf@).subrange(0, buf.len() - i),
        decreases i,
    {
        i = i - 1;
        let ghost before = text@;
        text.append(digit_text(buf[i]));
        assert(text@ =~= old(text)@ + top_down(buf@).subrange(0, buf.len() - i));
    }
    assert(top_down(buf@).subrange(0, buf.len() as int) =~= top_down(buf@));
}

/// Rounds `num / den` to the nearest whole number, a tie going to the even
/// one.
fn divide_half_even(num: u128, den: u128) -> (q: u128)
    requires
        den > 0,
        num / den < u128::MAX,
        den <= u128::MAX / 2,
    ensures
        q == round_half_even(num as nat, den as nat),
        q <= num / den + 1,
{
    reveal(round_half_even);
    let q = num / den;
    let r = num % den;
    if 2 * r > den || (2 * r == den && q % 2 == 1) {
        q + 1
    } else {
        q
    }
}

/// Rounding to a whole number of steps stays within 64 bits where the step
/// divides 2^64.
proof fn lemma_rounded_fits(bytes: nat, step: nat)
    requires
        bytes < 0x1_0000_0000_0000_0000,
        step >= 1,
        0x1_0000_0000_0000_0000nat % step == 0,
    ensures
        round_half_even(bytes, step) * step <= 0x1_0000_0000_0000_0000,
{
    reveal(round_half_even);
    let q = round_half_even(bytes, step);
    let b = bytes as int;
    let s = step as int;
    assert(q <= b / s + 1);
    assert((b / s + 1) * s <= 0x1_0000_0000_0000_0000int) by (nonlinear_arith)
        requires
            s >= 1,
            0 <= b < 0x1_0000_0000_0000_0000int,
            0x1_0000_0000_0000_0000int % s == 0,
    ;
    assert(q * s <= (b / s + 1) * s) by (nonlinear_arith)
        requires
            0 <= q <= b / s + 1,
            s >= 1,
    ;
}

/// Rounding to steps of one changes nothing.
proof fn lemma_rounded_by_one(bytes: nat)
    ensures
        round_half_even(bytes, 1) == bytes,
{
    reveal(round_half_even);
}

/// The step to which a size is rounded when it is measured: a power of two
/// that divides 2^64, and 1 for the sizes of at most 53 bits.
fn measuring_step(bytes: u64) -> (step: u128)
    ensures
        step == vstd::arithmetic::power2::pow2(spare_bits(bytes as nat, 0)),
        1 <= step <= 2048,
        0x1_0000_0000_0000_0000nat % (step as nat) == 0,
        bytes < 0x20_0000_0000_0000 ==> step == 1,
{
    let mut k: u32 = 0;
    let mut limit: u128 = 0x20_0000_0000_0000;
    let mut step: u128 = 1;
    proof {
        vstd::arithmetic::power2::lemma2_to64();
        vstd::arithmetic::power2::lemma2_to64_rest();
    }
    while k < 11 && bytes as u128 >= limit
        invariant
            k <= 11,
            limit == vstd::arithmetic::power2::pow2(53 + k as nat),
            step == vstd::arithmetic::power2::pow2(k as nat),
            limit == step * 0x20_0000_0000_0000,
            step == 1 || step == 2 || step == 4 || step == 8 || step == 16 || step == 32 || step
                == 64 || step == 128 || step == 256 || step == 512 || step == 1024 || step
                == 2048,
            k < 11 ==> step <= 1024,
            k > 0 ==> bytes >= 0x20_0000_0000_0000,
            spare_bits(bytes as nat, k as nat) == spare_bits(bytes as nat, 0),
        decreases 11 - k,
    {
        proof {
            vstd::arithmetic::power2::lemma_pow2_unfold(54 + k as nat);
            vstd::arithmetic::power2::lemma_pow2_unfold(1 + k as nat);
            vstd::arithmetic::power2::lemma2_to64();
        }
        k = k + 1;
        limit = limit * 2;
        step = step * 2;
        assert(k < 11 ==> step <= 1024) by {
            assert(k == 11 ==> step == 2048);
        }
    }
    step
}

/// A size as it is measured.
fn measure(bytes: u64) -> (m: u128)
    ensures
        m == measured(bytes as nat),
        m <= 0x1_0000_0000_0000_0000,
        bytes < 0x20_0000_0000_0000 ==> m == bytes,
{
    let step = measuring_step(bytes);
    let q = divide_half_even(bytes as u128, step);
    proof {
        lemma_rounded_fits(bytes as nat, step as nat);
        lemma_rounded_by_one(bytes as nat);
        if step == 1 {
            assert(q == bytes);
            assert(q * step == q) by (nonlinear_arith)
                requires
                    step == 1,
            ;
        }
    }
    q * step
}

impl Logger {
    /// Writes a size in words: bytes below 1024, else KB, MB or GB at
    /// multiples of 1024, with two decimals.
    pub fn bytes_to_human_readable(bytes: u64) -> (text: String)
        ensures
            text@ == human_readable(bytes as nat),
    {
        let mut text = String::new();
        if bytes < 1024 {
            append_decimal(&mut text, bytes);
            text.append(" bytes");
            return text;
        }
        let unit: u128 = if bytes >= 1073741824 {
            1073741824
        } else if bytes >= 1048576 {
            1048576
        } else {
            1024
        };
        let h = divide_half_even(measure(bytes) * 100, unit);
        assert(h / 100 <= u64::MAX);
        proof {
            reveal_strlit(".");
        }
        assert("."@ =~= seq!['.']);
        append_decimal(&mut text, (h / 100) as u64);
        text.append(".");
        let f = (h % 100) as u8;
        text.append(digit_text(f / 10));
        text.append(digit_text(f % 10));
        assert(seq![digit_char((f / 10) as nat)] + seq![digit_char((f % 10) as nat)]
            =~= two_digits((h % 100) as nat));
        if bytes >= 1073741824 {
            text.append(" GB");
        } else if bytes >= 1048576 {
            text.append(" MB");
        } else {
            text.append(" KB");
        }
        assert(text@ =~= human_readable(bytes as nat));
        text
    }
}

/// A log file, named after what it records and the moment it was begun.
#[derive(Clone, Debug)]
pub struct Logger {
    log_file_path: String,
}

/// The name of a log file: in the given directory, `cpu` or `backup`, then
/// `_log_`, the time and `.txt`.
pub open spec fn log_file_name(directory: Seq<char>, is_cpu: bool, time: Seq<char>) -> Seq<char> {
    directory + "/"@ + if is_cpu {
        "cpu"@
    } else {
        "backup"@
    } + "_log_"@ + time + ".txt"@
}

/// The text that chrono writes for a moment in a zone, or nothing where it
/// has no such moment or no such zone. The moment is `secs` seconds and
/// `nanos` nanoseconds after the start of 1970 in universal time, as
/// `chrono::DateTime::from_timestamp` takes it; the zone lies
/// `offset_seconds` east of universal time, as `chrono::FixedOffset::east_opt`
/// takes it; the text is the local date and time there, written by
/// `chrono::DateTime::format` as year, month and day joined by `-`, then
/// `_`, then hour, minute and second joined by `-`.
pub uninterp spec fn time_text(secs: i64, nanos: u32, offset_seconds: i32) -> Option<Seq<char>>;

/// Writes a moment in a zone through chrono: `DateTime::from_timestamp`
/// makes the moment, `FixedOffset::east_opt` the zone, `with_timezone` puts
/// the one in the other and `format` writes it. The result is `time_text`
/// of the three numbers: it depends on them alone, and it is nothing
/// exactly where one of the first two calls gives nothing.
#[verifier::external_body]
fn write_time(secs: i64, nanos: u32, offset_seconds: i32) -> (text: Option<String>)
    ensures
        match text {
            Some(written) => time_text(secs, nanos, offset_seconds) == Some(written@),
            None => time_text(secs, nanos, offset_seconds) is None,
        },
{
    let moment = chrono::DateTime::from_timestamp(secs, nanos)?;
    let zone = chrono::FixedOffset::east_opt(offset_seconds)?;
    Some(moment.with_timezone(&zone).format("%Y-%m-%d_%H-%M-%S").to_string())
}

impl Logger {
    /// The path of the log file.
    pub closed spec fn path(&self) -> Seq<char> {
        self.log_file_path@
    }

    /// The path of the log file.
    pub fn log_file_path(&self) -> (path: &str)
        ensures
            path@ == self.path(),
    {
        self.log_file_path.as_str()
    }

    /// A log in `log_file_path`, for the processor load or for the backup,
    /// begun at the time that `time` names.
    pub fn begun_at(log_file_path: &str, is_cpu: bool, time: &str) -> (logger: Logger)
        ensures
            logger.path() == log_file_name(log_file_path@, is_cpu, time@),
    {
        let mut name = String::from_str(log_file_path);
        name.append("/");
        name.append(
            if is_cpu {
                "cpu"
            } else {
                "backup"
            },
        );
        name.append("_log_");
        name.append(time);
        name.append(".txt");
        Logger { log_file_path: name }
    }

    /// A log in `log_file_path`, for the processor load or for the backup,
    /// begun at the moment that the clock gave: `secs` seconds and `nanos`
    /// nanoseconds after the start of 1970 in universal time, in a zone
    /// that lies `offset_seconds` east of it. Its name carries the local
    /// date and time of that moment. There is no log where the moment or
    /// the zone is beyond what can be written.
    pub fn new(log_file_path: &str, is_cpu: bool, secs: i64, nanos: u32, offset_seconds: i32) -> (logger:
        Option<Logger>)
        ensures
            match time_text(secs, nanos, offset_seconds) {
                Some(time) => logger is Some && logger->Some_0.path() == log_file_name(
                    log_file_path@,
                    is_cpu,
                    time,
                ),
                None => logger is None,
            },
    {
        match write_time(secs, nanos, offset_seconds) {
            Some(time) => Some(Logger::begun_at(log_file_path, is_cpu, time.as_str())),
            None => None,
        }
    }
}

/// The text that `std::fmt::Debug` writes for the `std::time::Duration` of
/// `secs` seconds and `nanos` nanoseconds when two decimals are asked for.
pub uninterp spec fn duration_text(secs: u64, nanos: u32) -> Seq<char>;

/// Writes a span of time with two decimals, as the `Debug` implementation
/// of `std::time::Duration` does: the result is that text, which depends on
/// the span alone.
#[verifier::external_body]
fn format_duration(secs: u64, nanos: u32) -> (text: String)
    requires
        nanos < 1_000_000_000,
    ensures
        text@ == duration_text(secs, nanos),
{
    format!("{:.2?}", core::time::Duration::new(secs, nanos))
}

/// The entry that records a finished backup: the size in words and in
/// bytes, the number of files, and the time it took as `cpu_time` words it.
pub open spec fn backup_details(total_size: nat, total_file: nat, cpu_time: Seq<char>) -> Seq<
    char,
> {
    "Backup completed. \n\nTotal size: \t\t"@ + human_readable(total_size) + " ("@ + decimal(
        total_size,
    ) + " bytes) \nNumber of files: \t"@ + decimal(total_file) + " \nCPU time: \t\t"@ + cpu_time
        + "\n"@
}

/// Composes the entry that records a finished backup.
pub fn backup_details_text(total_size: u64, total_file: usize, cpu_time: &str) -> (entry: String)
    ensures
        entry@ == backup_details(total_size as nat, total_file as nat, cpu_time@),
{
    let mut entry = String::from_str("Backup completed. \n\nTotal size: \t\t");
    let readable = Logger::bytes_to_human_readable(total_size);
    entry.append(readable.as_str());
    entry.append(" (");
    append_decimal(&mut entry, total_size);
    entry.append(" bytes) \nNumber of files: \t");
    append_decimal(&mut entry, total_file as u64);
    entry.append(" \nCPU time: \t\t");
    entry.append(cpu_time);
    entry.append("\n");
    entry
}

impl Logger {
    /// The entry that records a finished backup of `total_size` bytes in
    /// `total_file` files, which took `cpu_secs` seconds and `cpu_nanos`
    /// nanoseconds. It is to be written to this log.
    pub fn log_backup_details(
        &self,
        total_size: u64,
        total_file: usize,
        cpu_secs: u64,
        cpu_nanos: u32,
    ) -> (entry: String)
        requires
            cpu_nanos < 1_000_000_000,
        ensures
            entry@ == backup_details(
                total_size as nat,
                total_file as nat,
                duration_text(cpu_secs, cpu_nanos),
            ),
    {
        let cpu_time = format_duration(cpu_secs, cpu_nanos);
        backup_details_text(total_size, total_file, cpu_time.as_str())
    }
}

/// Where the logs of the processor load are kept: in `log/` beside the
/// program, or in the working directory where the program's own directory
/// is not given.
pub fn retrieve_path_cpu_log(program_dir: Option<&str>) -> (path: String)
    ensures
        path@ == match program_dir {
            Some(dir) => join(dir@, "log/"@),
            None => "log/"@,
        },
{
    match program_dir {
        Some(dir) => join_path(dir, "log/"),
        None => String::from_str("log/"),
    }
}

} // verus!
