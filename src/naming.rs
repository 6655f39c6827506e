use vstd::prelude::*;
use vstd::string::*;

verus! {

/// What one character of a clock reading becomes in a file name: dashes and
/// colons are dropped and the space between date and time becomes an underscore.
pub open spec fn name_piece(c: char) -> Seq<char> {
    if c == ' ' {
        seq!['_']
    } else if c == '-' || c == ':' {
        Seq::empty()
    } else {
        seq![c]
    }
}

pub open spec fn cleaned(s: Seq<char>) -> Seq<char>
    decreases s.len(),
{
    if s.len() == 0 {
        Seq::empty()
    } else {
        cleaned(s.drop_last()) + name_piece(s.last())
    }
}

/// The length of a generated file name: `screenshot_`, eight digits of date,
/// an underscore and six digits of time.
pub const NAME_LEN: usize = 26;

/// The characters every generated file name starts with.
pub open spec fn name_prefix() -> Seq<char> {
    "screenshot_"@
}

/// What every reading of the local clock holds: once cleaned, its date,
/// separator and time give at least 15 characters.
pub open spec fn clock_reading(stamp: Seq<char>) -> bool {
    cleaned(stamp).len() >= 15
}

/// The default file name for a clock reading: `screenshot_` followed by the
/// cleaned reading, cut after the seconds, as in `screenshot_20231018_123456`.
pub open spec fn default_name_of(stamp: Seq<char>) -> Seq<char> {
    let full = "screenshot_"@ + cleaned(stamp);
    if full.len() <= NAME_LEN {
        full
    } else {
        full.take(NAME_LEN as int)
    }
}

pub open spec fn digit_char(d: nat) -> char {
    if d == 0 {
        '0'
    } else if d == 1 {
        '1'
    } else if d == 2 {
        '2'
    } else if d == 3 {
        '3'
    } else if d == 4 {
        '4'
    } else if d == 5 {
        '5'
    } else if d == 6 {
        '6'
    } else if d == 7 {
        '7'
    } else if d == 8 {
        '8'
    } else {
        '9'
    }
}

/// The decimal digits of `n`, most significant first.
pub open spec fn decimal(n: nat) -> Seq<char>
    decreases n,
{
    if n < 10 {
        seq![digit_char(n)]
    } else {
        decimal(n / 10) + seq![digit_char(n % 10)]
    }
}

fn append_decimal(out: &mut String, n: u32)
    ensures
        final(out)@ == old(out)@ + decimal(n as nat),
    decreases n,
{
    if n >= 10 {
        append_decimal(out, n / 10);
    }
    let d = n % 10;
    let digit = if d == 0 {
        "0"
    } else if d == 1 {
        "1"
    } else if d == 2 {
        "2"
    } else if d == 3 {
        "3"
    } else if d == 4 {
        "4"
    } else if d == 5 {
        "5"
    } else if d == 6 {
        "6"
    } else if d == 7 {
        "7"
    } else if d == 8 {
        "8"
    } else {
        "9"
    };
    proof {
        reveal_strlit("0");
        reveal_strlit("1");
        reveal_strlit("2");
        reveal_strlit("3");
        reveal_strlit("4");
        reveal_strlit("5");
        reveal_strlit("6");
        reveal_strlit("7");
        reveal_strlit("8");
        reveal_strlit("9");
    }
    assert(digit@ =~= seq![digit_char(d as nat)]);
    out.append(digit);
}

/// `base`, a dash, and `n` in decimal: the name of the `n`-th save under a
/// name the user chose.
pub fn numbered_name(base: &str, n: u32) -> (r: String)
    ensures
        r@ == base@ + "-"@ + decimal(n as nat),
{
    let mut out = base.to_owned();
    out.append("-");
    append_decimal(&mut out, n);
    out
}

/// The default file name for the clock reading `stamp`.
pub fn default_name_from(stamp: &str) -> (r: String)
    ensures
        r@ == default_name_of(stamp@),
{
    let mut out = "screenshot_".to_owned();
    proof {
        reveal_strlit("screenshot_");
    }
    let n = stamp.unicode_len();
    let mut i: usize = 0;
    while i < n
        invariant
            n == stamp@.len(),
            0 <= i <= n,
            out@ == "screenshot_"@ + cleaned(stamp@.take(i as int)),
        decreases n - i,
    {
        let c = stamp.get_char(i);
        proof {
            assert(stamp@.take(i + 1).drop_last() =~= stamp@.take(i as int));
            assert(stamp@.take(i + 1).last() == c);
        }
        if c == ' ' {
            proof {
                reveal_strlit("_");
            }
            out.append("_");
            assert(out@ =~= "screenshot_"@ + cleaned(stamp@.take(i + 1)));
        } else if c != '-' && c != ':' {
            let piece = stamp.substring_char(i, i + 1);
            out.append(piece);
            assert(out@ =~= "screenshot_"@ + cleaned(stamp@.take(i + 1)));
        } else {
            assert(out@ =~= "screenshot_"@ + cleaned(stamp@.take(i + 1)));
        }
        i += 1;
    }
    assert(stamp@.take(n as int) =~= stamp@);
    let len = out.unicode_len();
    if len <= NAME_LEN {
        out
    } else {
        out.substring_char(0, NAME_LEN).to_owned()
    }
}

/// Relies on chrono's `Local::now` and the `Display` impl of `DateTime`: the
/// local date and time as text, such as `2023-10-18 12:34:56.789 +02:00`.
/// The date is written as at least four digits of year (with a sign outside
/// 0..=9999), a dash, two digits of month, a dash and two of day; then a
/// space and the time as `HH:MM:SS`, before any fraction and offset.
#[verifier::external_body]
pub(crate) fn local_now_text() -> (r: String)
    ensures
        clock_reading(r@),
{
    chrono::Local::now().to_string()
}

/// A name made from a clock reading has the full length and the usual prefix.
pub proof fn lemma_clock_name_shape(stamp: Seq<char>)
    requires
        clock_reading(stamp),
    ensures
        default_name_of(stamp).len() == NAME_LEN,
        default_name_of(stamp).take(11) == name_prefix(),
{
    reveal_strlit("screenshot_");
    assert(default_name_of(stamp).take(11) =~= name_prefix());
}

/// The default file name for the current local time.
pub fn compute_default_name() -> (r: String)
    ensures
        exists|stamp: Seq<char>| clock_reading(stamp) && r@ == default_name_of(stamp),
        r@.len() == NAME_LEN,
        r@.take(11) == name_prefix(),
{
    let stamp = local_now_text();
    let r = default_name_from(&stamp);
    proof {
        lemma_clock_name_shape(stamp@);
    }
    r
}

} // verus!
