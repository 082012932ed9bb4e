//! Small verified utilities around the packaging engine: decimal formatting,
//! human-readable byte and time-delta strings, backup bookkeeping and logging.

use vstd::prelude::*;

use std::io::Write;

verus! {

/// The decimal digit character for `d` in 0..=9.
pub open spec fn digit_char(d: int) -> char {
    if d == 0 {
        '0'
    } else if d == 1 {
        '1'
    } else if d == 2 {
        '2'
    } else if d == 3 {
        '3'
    } else if d == 4 {
        '4'
    } else if d == 5 {
        '5'
    } else if d == 6 {
        '6'
    } else if d == 7 {
        '7'
    } else if d == 8 {
        '8'
    } else {
        '9'
    }
}

/// The decimal digits of a non-negative number, most significant first.
pub open spec fn dec_digits(n: int) -> Seq<char>
    decreases n,
{
    if n < 10 {
        seq![digit_char(n)]
    } else {
        dec_digits(n / 10) + seq![digit_char(n % 10)]
    }
}

/// The decimal rendering of a possibly negative number.
pub open spec fn int_digits(n: int) -> Seq<char> {
    if n < 0 {
        seq!['-'] + dec_digits(-n)
    } else {
        dec_digits(n)
    }
}

fn digit_str(d: u64) -> (r: &'static str)
    requires
        d < 10,
    ensures
        r@ == seq![digit_char(d as int)],
{
    if d == 0 {
        proof {
            reveal_strlit("0");
            assert("0"@ =~= seq![digit_char(0int)]);
        }
        "0"
    } else if d == 1 {
        proof {
            reveal_strlit("1");
            assert("1"@ =~= seq![digit_char(1int)]);
        }
        "1"
    } else if d == 2 {
        proof {
            reveal_strlit("2");
            assert("2"@ =~= seq![digit_char(2int)]);
        }
        "2"
    } else if d == 3 {
        proof {
            reveal_strlit("3");
            assert("3"@ =~= seq![digit_char(3int)]);
        }
        "3"
    } else if d == 4 {
        proof {
            reveal_strlit("4");
            assert("4"@ =~= seq![digit_char(4int)]);
        }
        "4"
    } else if d == 5 {
        proof {
            reveal_strlit("5");
            assert("5"@ =~= seq![digit_char(5int)]);
        }
        "5"
    } else if d == 6 {
        proof {
            reveal_strlit("6");
            assert("6"@ =~= seq![digit_char(6int)]);
        }
        "6"
    } else if d == 7 {
        proof {
            reveal_strlit("7");
            assert("7"@ =~= seq![digit_char(7int)]);
        }
        "7"
    } else if d == 8 {
        proof {
            reveal_strlit("8");
            assert("8"@ =~= seq![digit_char(8int)]);
        }
        "8"
    } else {
        proof {
            reveal_strlit("9");
            assert("9"@ =~= seq![digit_char(9int)]);
        }
        "9"
    }
}

/// Renders a number in decimal.
pub fn u64_to_string(n: u64) -> (r: String)
    ensures
        r@ == dec_digits(n as int),
    decreases n,
{
    if n < 10 {
        digit_str(n).to_owned()
    } else {
        let mut s = u64_to_string(n / 10);
        s.append(digit_str(n % 10));
        s
    }
}

/// The file name a backup archive is stored under.
pub fn construct_backup_file_name(prefix: &str, date: &str) -> (r: String)
    ensures
        r@ == prefix@ + "_"@ + date@ + ".tar.gz"@,
{
    let mut s = prefix.to_owned();
    s.append("_");
    s.append(date);
    s.append(".tar.gz");
    s
}

pub const KB: u64 = 1024;

pub const MB: u64 = 1024 * 1024;

pub const GB: u64 = 1024 * 1024 * 1024;

/// `bytes` scaled to hundredths of `unit`, rounded to nearest (half up).
pub open spec fn scaled_hundredths(bytes: int, unit: int) -> int {
    (bytes * 100 + unit / 2) / unit
}

/// A hundredths count rendered with two decimal places.
pub open spec fn two_dec_digits(h: int) -> Seq<char> {
    dec_digits(h / 100) + seq!['.'] + (if h % 100 < 10 {
        seq!['0'] + dec_digits(h % 100)
    } else {
        dec_digits(h % 100)
    })
}

/// The human-readable rendering of a byte count: scaled to the largest unit
/// it reaches, with two decimal places, or a plain count below one kibibyte.
pub open spec fn bytes_string_spec(bytes: int) -> Seq<char> {
    if bytes >= GB {
        two_dec_digits(scaled_hundredths(bytes, GB as int)) + " GB"@
    } else if bytes >= MB {
        two_dec_digits(scaled_hundredths(bytes, MB as int)) + " MB"@
    } else if bytes >= KB {
        two_dec_digits(scaled_hundredths(bytes, KB as int)) + " KB"@
    } else {
        dec_digits(bytes) + " bytes"@
    }
}

fn scaled(bytes: u64, unit: u64) -> (h: u64)
    requires
        1024 <= unit,
    ensures
        h as int == scaled_hundredths(bytes as int, unit as int),
{
    let wide: u128 = (bytes as u128) * 100 + (unit as u128) / 2;
    let h: u128 = wide / (unit as u128);
    proof {
        assert(h * 1024 <= wide) by (nonlinear_arith)
            requires
                1024 <= unit,
                h == wide / (unit as u128),
        ;
        assert(h <= 0xffffffffffffffffu64);
    }
    h as u64
}

fn two_dec_string(h: u64) -> (r: String)
    ensures
        r@ == two_dec_digits(h as int),
{
    let mut s = u64_to_string(h / 100);
    s.append(".");
    proof {
        reveal_strlit(".");
        assert("."@ =~= seq!['.']);
    }
    let f = h % 100;
    if f < 10 {
        s.append("0");
        proof {
            reveal_strlit("0");
            assert("0"@ =~= seq!['0']);
        }
    }
    s.append(u64_to_string(f).as_str());
    proof {
        if f < 10 {
            assert(s@ =~= dec_digits(h as int / 100) + seq!['.'] + (seq!['0'] + dec_digits(
                h as int % 100,
            )));
        } else {
            assert(s@ =~= dec_digits(h as int / 100) + seq!['.'] + dec_digits(h as int % 100));
        }
    }
    s
}

/// Renders a byte count for people: two decimals of the largest unit
/// reached — hundredths rounded to nearest, halves upward — or the plain
/// count below one kibibyte.
pub fn get_bytes_string(bytes: u64) -> (r: String)
    ensures
        r@ == bytes_string_spec(bytes as int),
{
    if bytes >= GB {
        let mut s = two_dec_string(scaled(bytes, GB));
        s.append(" GB");
        s
    } else if bytes >= MB {
        let mut s = two_dec_string(scaled(bytes, MB));
        s.append(" MB");
        s
    } else if bytes >= KB {
        let mut s = two_dec_string(scaled(bytes, KB));
        s.append(" KB");
        s
    } else {
        let mut s = u64_to_string(bytes);
        s.append(" bytes");
        s
    }
}

/// Division truncated towards zero, for a positive divisor.
pub open spec fn trunc_div(a: int, b: int) -> int {
    if a >= 0 {
        a / b
    } else {
        -((-a) / b)
    }
}

/// The rendering of a time delta in seconds: whole seconds up to a minute,
/// then whole minutes, hours and days, and whole weeks beyond a week —
/// negative deltas fall into the weeks bucket, truncated towards zero.
pub open spec fn delta_string_spec(s: int) -> Seq<char> {
    if 0 <= s <= 59 {
        dec_digits(s) + "s"@
    } else if 60 <= s <= 3599 {
        dec_digits(s / 60) + "m"@
    } else if 3600 <= s <= 86399 {
        dec_digits(s / 3600) + "h"@
    } else if 86400 <= s <= 604799 {
        dec_digits(s / 86400) + "d"@
    } else {
        int_digits(trunc_div(s, 604800)) + "w"@
    }
}

/// Renders the delta between two instants, each given in seconds since a
/// common epoch, as a short human-readable age.
pub fn get_delta_string(a: i64, b: i64) -> (r: String)
    requires
        i64::MIN <= a - b <= i64::MAX,
    ensures
        r@ == delta_string_spec(a - b),
{
    let seconds: i64 = a - b;
    if 0 <= seconds && seconds <= 59 {
        let mut s = u64_to_string(seconds as u64);
        s.append("s");
        s
    } else if 60 <= seconds && seconds <= 3599 {
        let mut s = u64_to_string(seconds as u64 / 60);
        s.append("m");
        s
    } else if 3600 <= seconds && seconds <= 86399 {
        let mut s = u64_to_string(seconds as u64 / 3600);
        s.append("h");
        s
    } else if 86400 <= seconds && seconds <= 604799 {
        let mut s = u64_to_string(seconds as u64 / 86400);
        s.append("d");
        s
    } else if seconds >= 0 {
        let w: u64 = seconds as u64 / 604800;
        let mut s = u64_to_string(w);
        s.append("w");
        proof {
            assert(trunc_div(seconds as int, 604800) == w as int);
        }
        s
    } else {
        let mag: u128 = (-(seconds as i128)) as u128;
        let w: u128 = mag / 604800;
        let wv: u64 = w as u64;
        proof {
            assert(mag <= 0x8000000000000000u128);
            assert(w == mag / 604800);
            assert(w < 0x10000000000000000u128);
            assert(trunc_div(seconds as int, 604800) == -(wv as int));
        }
        if wv == 0 {
            let mut s = u64_to_string(0);
            s.append("w");
            s
        } else {
            let mut s = String::from_str("-");
            proof {
                reveal_strlit("-");
                assert(s@ =~= seq!['-']);
            }
            s.append(u64_to_string(wv).as_str());
            s.append("w");
            proof {
                assert(int_digits(-(wv as int)) =~= seq!['-'] + dec_digits(wv as int));
            }
            s
        }
    }
}

/// One previously made backup: its archive name, its creation instant in
/// seconds since a common epoch, and where it lies on the remote disk.
#[derive(Clone, Debug)]
pub struct Backup {
    pub name: String,
    pub created_at: i64,
    pub disk_path: Option<String>,
}

/// The most recently created backup: the first one, in list order, whose
/// creation instant no other exceeds.
pub fn get_latest_backup(backups: &Vec<Backup>) -> (r: Option<&Backup>)
    ensures
        r is Some <==> backups@.len() > 0,
        r matches Some(b) ==> exists|i: int|
            {
                &&& 0 <= i < backups@.len()
                &&& *b == backups@[i]
                &&& (forall|j: int| 0 <= j < backups@.len() ==> backups@[j].created_at <= b.created_at)
                &&& (forall|j: int| #![trigger backups@[j]] 0 <= j < i ==> backups@[j].created_at
                    < b.created_at)
            },
{
    if backups.len() == 0 {
        return None;
    }
    let mut best: usize = 0;
    let mut i: usize = 1;
    while i < backups.len()
        invariant
            backups@.len() > 0,
            best < i <= backups@.len(),
            forall|j: int| 0 <= j < i ==> backups@[j].created_at <= backups@[best as int].created_at,
            forall|j: int| #![trigger backups@[j]] 0 <= j < best ==> backups@[j].created_at
                < backups@[best as int].created_at,
        decreases backups@.len() - i,
    {
        if backups[i].created_at > backups[best].created_at {
            best = i;
        }
        i = i + 1;
    }
    Some(&backups[best])
}

/// Picks the disk token by precedence: the environment's value first, then
/// the configuration's, then the token file's.
pub fn resolve_token(
    env_token: Option<String>,
    config_token: Option<String>,
    file_token: Option<String>,
) -> (r: Option<String>)
    ensures
        env_token is Some ==> r == env_token,
        env_token is None && config_token is Some ==> r == config_token,
        env_token is None && config_token is None ==> r == file_token,
{
    match env_token {
        Some(t) => Some(t),
        None => match config_token {
            Some(t) => Some(t),
            None => file_token,
        },
    }
}

/// Relies on std::io::Stdout::write_fmt (through writeln): prints one line to
/// standard output, ignoring write errors.
#[verifier::external_body]
fn print_line(message: &str) {
    let _ = writeln!(std::io::stdout(), "{}", message);
}

/// A gate in front of standard output: silent unless enabled, except for
/// forced messages.
pub struct Logger {
    pub enabled: bool,
}

impl Logger {
    fn _log(&self, message: &str, force: bool) {
        if self.enabled || force {
            print_line(message);
        }
    }

    /// Prints the message when logging is enabled.
    pub fn log(&self, message: &str) {
        self._log(message, false)
    }

    /// Prints the message whether or not logging is enabled.
    pub fn force_log(&self, message: &str) {
        self._log(message, true)
    }
}

} // verus!
