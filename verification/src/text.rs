//! Numbers and names written out as text.

use vstd::prelude::*;
use vstd::string::StrSliceExecFns;
use vstd::string::StringExecFns;

verus! {

/// The character that stands for the digit `d`.
pub open spec fn digit_char(d: int) -> char {
    if d == 0 {
        '0'
    } else if d == 1 {
        '1'
    } else if d == 2 {
        '2'
    } else if d == 3 {
        '3'
    } else if d == 4 {
        '4'
    } else if d == 5 {
        '5'
    } else if d == 6 {
        '6'
    } else if d == 7 {
        '7'
    } else if d == 8 {
        '8'
    } else {
        '9'
    }
}

/// `n` in decimal digits, with no sign and no zeros in front.
pub open spec fn decimal(n: nat) -> Seq<char>
    decreases n,
{
    if n < 10 {
        seq![digit_char(n as int)]
    } else {
        decimal(n / 10).push(digit_char((n % 10) as int))
    }
}

/// `n` in decimal digits, with a `-` in front where it is negative.
pub open spec fn signed_decimal(n: int) -> Seq<char> {
    if n < 0 {
        seq!['-'] + decimal((-n) as nat)
    } else {
        decimal(n as nat)
    }
}

/// The decimal places of `rest / (10 * unit)`, from the first on and up to
/// the last that is not zero. `unit` is the weight of the first place.
pub open spec fn decimal_places(rest: nat, unit: nat) -> Seq<char>
    decreases unit,
{
    if rest == 0 || unit == 0 {
        Seq::empty()
    } else {
        seq![digit_char((rest / unit) as int)] + decimal_places(rest % unit, unit / 10)
    }
}

/// `picos` trillionths as a decimal number: the whole part, and after a
/// point as many of the twelve decimal places as it takes, if any are
/// needed.
pub open spec fn trillionths(picos: nat) -> Seq<char> {
    if picos % 1_000_000_000_000 == 0 {
        decimal(picos / 1_000_000_000_000)
    } else {
        decimal(picos / 1_000_000_000_000) + seq!['.'] + decimal_places(
            picos % 1_000_000_000_000,
            100_000_000_000,
        )
    }
}

/// A time of `picos` picoseconds in seconds, as a decimal number.
pub open spec fn seconds(picos: int) -> Seq<char> {
    if picos < 0 {
        seq!['-'] + trillionths((-picos) as nat)
    } else {
        trillionths(picos as nat)
    }
}

/// The text of one digit.
pub fn digit_text(d: u8) -> (text: &'static str)
    requires
        d < 10,
    ensures
        text@ == seq![digit_char(d as int)],
{
    proof {
        reveal_strlit("0");
        reveal_strlit("1");
        reveal_strlit("2");
        reveal_strlit("3");
        reveal_strlit("4");
        reveal_strlit("5");
        reveal_strlit("6");
        reveal_strlit("7");
        reveal_strlit("8");
        reveal_strlit("9");
    }
    let text: &'static str = match d {
        0 => "0",
        1 => "1",
        2 => "2",
        3 => "3",
        4 => "4",
        5 => "5",
        6 => "6",
        7 => "7",
        8 => "8",
        _ => "9",
    };
    assert(text@ =~= seq![digit_char(d as int)]);
    text
}

/// Writes `decimal(n)` at the end of `out`.
pub fn push_decimal(out: &mut String, n: u128)
    ensures
        final(out)@ == old(out)@ + decimal(n as nat),
    decreases n,
{
    if n < 10 {
        out.append(digit_text(n as u8));
    } else {
        push_decimal(out, n / 10);
        out.append(digit_text((n % 10) as u8));
        assert(out@ =~= old(out)@ + decimal(n as nat));
    }
}

/// `unit` is the weight of one of the twelve decimal places of a trillionth.
pub open spec fn is_place(unit: nat) -> bool {
    unit == 1 || unit == 10 || unit == 100 || unit == 1_000 || unit == 10_000 || unit == 100_000
        || unit == 1_000_000 || unit == 10_000_000 || unit == 100_000_000 || unit
        == 1_000_000_000 || unit == 10_000_000_000 || unit == 100_000_000_000
}

/// Writes `decimal_places(rest, unit)` at the end of `out`.
pub fn push_decimal_places(out: &mut String, rest: u64, unit: u64)
    requires
        is_place(unit as nat),
        rest < 10 * unit,
    ensures
        final(out)@ == old(out)@ + decimal_places(rest as nat, unit as nat),
    decreases unit,
{
    if rest == 0 {
        assert(out@ =~= old(out)@ + decimal_places(rest as nat, unit as nat));
    } else {
        out.append(digit_text((rest / unit) as u8));
        if unit >= 10 {
            push_decimal_places(out, rest % unit, unit / 10);
        } else {
            assert(decimal_places((rest % unit) as nat, (unit / 10) as nat) =~= Seq::empty());
        }
        assert(out@ =~= old(out)@ + decimal_places(rest as nat, unit as nat));
    }
}

/// `signed_decimal` computed.
pub fn decimal_text(n: i64) -> (text: String)
    ensures
        text@ == signed_decimal(n as int),
{
    let mut text: String = String::new();
    if n < 0 {
        proof {
            reveal_strlit("-");
        }
        text.append("-");
        push_decimal(&mut text, (-(n as i128)) as u128);
        assert(text@ =~= signed_decimal(n as int));
    } else {
        push_decimal(&mut text, n as u128);
        assert(text@ =~= signed_decimal(n as int));
    }
    text
}

/// `seconds` computed.
pub fn seconds_text(picos: i128) -> (text: String)
    requires
        i128::MIN < picos,
    ensures
        text@ == seconds(picos as int),
{
    let mut text: String = String::new();
    let size: u128 = if picos < 0 {
        proof {
            reveal_strlit("-");
        }
        text.append("-");
        (-picos) as u128
    } else {
        picos as u128
    };
    let ghost sign = text@;
    let rest: u64 = (size % 1_000_000_000_000) as u64;
    push_decimal(&mut text, size / 1_000_000_000_000);
    if rest != 0 {
        proof {
            reveal_strlit(".");
        }
        text.append(".");
        push_decimal_places(&mut text, rest, 100_000_000_000);
    }
    assert(text@ =~= sign + trillionths(size as nat));
    assert(text@ =~= seconds(picos as int));
    text
}

/// The path of `leaf` inside the directory `base`: a leaf that begins at
/// the root stands for itself, and otherwise one `/` parts the two unless
/// `base` is empty or ends with one.
pub open spec fn joined(base: Seq<char>, leaf: Seq<char>) -> Seq<char> {
    if leaf.len() > 0 && leaf[0] == '/' {
        leaf
    } else if base.len() == 0 || base.last() == '/' {
        base + leaf
    } else {
        base + seq!['/'] + leaf
    }
}

/// `joined` computed.
pub fn join_path(base: &str, leaf: &str) -> (path: String)
    ensures
        path@ == joined(base@, leaf@),
{
    let leaf_len: usize = leaf.unicode_len();
    if leaf_len > 0 && leaf.get_char(0) == '/' {
        return String::from_str(leaf);
    }
    let base_len: usize = base.unicode_len();
    let mut path: String = String::from_str(base);
    if base_len > 0 && base.get_char(base_len - 1) != '/' {
        proof {
            reveal_strlit("/");
            assert("/"@ == seq!['/']);
        }
        path.append("/");
    }
    path.append(leaf);
    path
}

/// `name` as the name of one file or directory: every `/` in it becomes
/// a `_`, so that the name stays one name and does not begin at the root.
pub open spec fn file_name_of(name: Seq<char>) -> Seq<char> {
    name.map_values(
        |c: char|
            if c == '/' {
                '_'
            } else {
                c
            },
    )
}

/// `file_name_of` computed.
pub fn to_file_name(name: &str) -> (file_name: String)
    ensures
        file_name@ == file_name_of(name@),
{
    let len: usize = name.unicode_len();
    let mut file_name: String = String::new();
    let mut i: usize = 0;
    while i < len
        invariant
            i <= len,
            len == name@.len(),
            file_name@ == file_name_of(name@.take(i as int)),
        decreases len - i,
    {
        if name.get_char(i) == '/' {
            proof {
                reveal_strlit("_");
            }
            file_name.append("_");
        } else {
            file_name.append(name.substring_char(i, i + 1));
        }
        assert(file_name@ =~= file_name_of(name@.take(i + 1)));
        i = i + 1;
    }
    assert(name@.take(len as int) == name@);
    file_name
}

} // verus!
