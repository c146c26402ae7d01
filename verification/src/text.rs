use vstd::prelude::*;

verus! {

/// The decimal digit `d` (`0 <= d < 10`) as a character.
pub open spec fn digit_char(d: nat) -> char {
    ((48 + d) as u32) as char
}

/// The decimal digits of `n`, most significant first, without leading zeros.
pub open spec fn decimal_digits(n: nat) -> Seq<char>
    decreases n,
{
    if n < 10 {
        seq![digit_char(n)]
    } else {
        decimal_digits(n / 10).push(digit_char(n % 10))
    }
}

/// How `{}` writes the integer `n`: a minus sign for negative numbers, then
/// the decimal digits of its magnitude.
pub open spec fn decimal_text(n: int) -> Seq<char> {
    if n < 0 {
        seq!['-'] + decimal_digits((-n) as nat)
    } else {
        decimal_digits(n as nat)
    }
}

/// The text of the decimal digit `d`.
fn digit_text(d: u64) -> (text: &'static str)
    requires
        d < 10,
    ensures
        text@ == seq![digit_char(d as nat)],
{
    proof {
        reveal_strlit("0");
        reveal_strlit("1");
        reveal_strlit("2");
        reveal_strlit("3");
        reveal_strlit("4");
        reveal_strlit("5");
        reveal_strlit("6");
        reveal_strlit("7");
        reveal_strlit("8");
        reveal_strlit("9");
    }
    match d {
        0 => "0",
        1 => "1",
        2 => "2",
        3 => "3",
        4 => "4",
        5 => "5",
        6 => "6",
        7 => "7",
        8 => "8",
        _ => "9",
    }
}

/// The decimal digits of `n`.
fn format_digits(n: u64) -> (text: String)
    ensures
        text@ == decimal_digits(n as nat),
    decreases n,
{
    if n < 10 {
        String::from_str(digit_text(n))
    } else {
        let mut text = format_digits(n / 10);
        text.append(digit_text(n % 10));
        proof {
            assert(text@ =~= decimal_digits((n / 10) as nat).push(digit_char((n % 10) as nat)));
        }
        text
    }
}

/// The text of `n` in decimal, as `format!("{}", n)` writes an `i64`.
pub(crate) fn format_decimal(n: i64) -> (text: String)
    ensures
        text@ == decimal_text(n as int),
{
    if n < 0 {
        let magnitude: u64 = (-(n as i128)) as u64;
        let digits = format_digits(magnitude);
        proof {
            reveal_strlit("-");
        }
        String::from_str("-").concat(digits.as_str())
    } else {
        format_digits(n as u64)
    }
}

/// `name` joined onto `base` as Unix paths: an absolute `name` (one that
/// starts with `/`) replaces `base`; otherwise `name` follows `base`, with a
/// `/` between them unless `base` is empty or already ends in `/`.
pub open spec fn path_join(base: Seq<char>, name: Seq<char>) -> Seq<char> {
    if name.len() > 0 && name[0] == '/' {
        name
    } else if base.len() == 0 || base.last() == '/' {
        base + name
    } else {
        base + seq!['/'] + name
    }
}

/// Joins `name` onto `base` as `std::path::Path::join` does on Unix paths.
pub(crate) fn join_path(base: &str, name: &str) -> (joined: String)
    ensures
        joined@ == path_join(base@, name@),
{
    let name_len = name.unicode_len();
    if name_len > 0 && name.get_char(0) == '/' {
        return String::from_str(name);
    }
    let base_len = base.unicode_len();
    if base_len == 0 || base.get_char(base_len - 1) == '/' {
        String::from_str(base).concat(name)
    } else {
        proof {
            reveal_strlit("/");
        }
        String::from_str(base).concat("/").concat(name)
    }
}

/// The decimal digits of a number are never empty and start with a digit.
pub proof fn lemma_decimal_digits_start(n: nat)
    ensures
        decimal_digits(n).len() > 0,
        48 <= decimal_digits(n)[0] as u32 <= 57,
    decreases n,
{
    if n >= 10 {
        lemma_decimal_digits_start(n / 10);
    }
}

/// The decimal text of a number is never empty and does not start with `/`.
pub proof fn lemma_decimal_text_start(n: int)
    ensures
        decimal_text(n).len() > 0,
        decimal_text(n)[0] != '/',
{
    if n < 0 {
        lemma_decimal_digits_start((-n) as nat);
    } else {
        lemma_decimal_digits_start(n as nat);
    }
}

/// The number that a text of decimal digits stands for, read with the most
/// significant digit first.
pub open spec fn digits_value(text: Seq<char>) -> int
    decreases text.len(),
{
    if text.len() == 0 {
        0
    } else {
        digits_value(text.drop_last()) * 10 + (text.last() as u32 - 48)
    }
}

/// The decimal digits of `n` are digits, and read back in base ten they
/// give `n`.
pub proof fn lemma_decimal_digits_value(n: nat)
    ensures
        forall|i: int|
            0 <= i < decimal_digits(n).len() ==> 48 <= #[trigger] decimal_digits(n)[i] as u32 <= 57,
        digits_value(decimal_digits(n)) == n,
    decreases n,
{
    let d = decimal_digits(n);
    if n < 10 {
        assert(digit_char(n) as u32 == 48 + n);
        assert(d.drop_last() =~= Seq::<char>::empty());
        assert(d.last() == digit_char(n));
        assert(digits_value(d.drop_last()) == 0);
        assert(digits_value(d) == digits_value(d.drop_last()) * 10 + (d.last() as u32 - 48));
    } else {
        lemma_decimal_digits_value(n / 10);
        assert(digit_char(n % 10) as u32 == 48 + n % 10);
        assert(d.drop_last() =~= decimal_digits(n / 10));
        assert(n == 10 * (n / 10) + n % 10);
        assert(d.last() == digit_char(n % 10));
        assert(digits_value(d) == digits_value(d.drop_last()) * 10 + (d.last() as u32 - 48));
        assert(digits_value(d) == (n / 10) * 10 + n % 10);
        assert forall|i: int| 0 <= i < d.len() implies 48 <= #[trigger] d[i] as u32 <= 57 by {
            if i < d.len() - 1 {
                assert(d[i] == decimal_digits(n / 10)[i]);
            }
        }
    }
}

/// The decimal text of `n` is a minus sign exactly when `n` is negative,
/// followed by digits that read back as the magnitude of `n`.
pub proof fn lemma_decimal_text_value(n: int)
    ensures
        (decimal_text(n)[0] == '-') == (n < 0),
        n < 0 ==> digits_value(decimal_text(n).drop_first()) == -n,
        n >= 0 ==> digits_value(decimal_text(n)) == n,
{
    if n < 0 {
        lemma_decimal_digits_value((-n) as nat);
        assert(decimal_text(n).drop_first() =~= decimal_digits((-n) as nat));
    } else {
        lemma_decimal_digits_value(n as nat);
        lemma_decimal_digits_start(n as nat);
    }
}

/// Numbers of ten or more have at least two decimal digits.
proof fn lemma_decimal_digits_len(n: nat)
    ensures
        n >= 10 ==> decimal_digits(n).len() >= 2,
        decimal_digits(n).len() >= 1,
    decreases n,
{
    if n >= 10 {
        lemma_decimal_digits_len(n / 10);
    }
}

/// Different numbers have different decimal digits.
pub proof fn lemma_decimal_digits_injective(a: nat, b: nat)
    requires
        decimal_digits(a) == decimal_digits(b),
    ensures
        a == b,
    decreases a,
{
    lemma_decimal_digits_len(a);
    lemma_decimal_digits_len(b);
    if a >= 10 && b >= 10 {
        let da = decimal_digits(a);
        let db = decimal_digits(b);
        assert(da.last() == db.last());
        assert(da.drop_last() =~= decimal_digits(a / 10));
        assert(db.drop_last() =~= decimal_digits(b / 10));
        lemma_decimal_digits_injective(a / 10, b / 10);
        assert(digit_char(a % 10) as u32 == 48 + a % 10);
        assert(digit_char(b % 10) as u32 == 48 + b % 10);
        assert(a % 10 == b % 10);
        assert(a == 10 * (a / 10) + a % 10);
        assert(b == 10 * (b / 10) + b % 10);
    } else if a < 10 && b < 10 {
        assert(decimal_digits(a)[0] == digit_char(a));
        assert(decimal_digits(b)[0] == digit_char(b));
        assert(digit_char(a) as u32 == 48 + a);
        assert(digit_char(b) as u32 == 48 + b);
        assert(a == b);
    } else {
        assert(decimal_digits(a).len() != decimal_digits(b).len());
    }
}

/// Different numbers are written differently.
pub proof fn lemma_decimal_text_injective(a: int, b: int)
    requires
        a != b,
    ensures
        decimal_text(a) != decimal_text(b),
{
    if decimal_text(a) == decimal_text(b) {
        if a < 0 && b < 0 {
            assert(decimal_text(a).drop_first() =~= decimal_digits((-a) as nat));
            assert(decimal_text(b).drop_first() =~= decimal_digits((-b) as nat));
            lemma_decimal_digits_injective((-a) as nat, (-b) as nat);
        } else if a >= 0 && b >= 0 {
            lemma_decimal_digits_injective(a as nat, b as nat);
        } else if a < 0 {
            lemma_decimal_digits_start(b as nat);
            assert(decimal_text(a)[0] == '-');
        } else {
            lemma_decimal_digits_start(a as nat);
            assert(decimal_text(b)[0] == '-');
        }
    }
}

/// Joining different names that are not absolute onto the same base gives
/// different paths.
pub proof fn lemma_path_join_injective(base: Seq<char>, a: Seq<char>, b: Seq<char>)
    requires
        a != b,
        a.len() > 0 && a[0] != '/',
        b.len() > 0 && b[0] != '/',
    ensures
        path_join(base, a) != path_join(base, b),
{
    let prefix = if base.len() == 0 || base.last() == '/' { base } else { base + seq!['/'] };
    assert(path_join(base, a) == prefix + a);
    assert(path_join(base, b) == prefix + b);
    if prefix + a == prefix + b {
        assert((prefix + a).subrange(prefix.len() as int, (prefix + a).len() as int) =~= a);
        assert((prefix + b).subrange(prefix.len() as int, (prefix + b).len() as int) =~= b);
    }
}

/// `parts` written one after the other, with `sep` between each two
/// neighbours.
pub open spec fn joined_text(parts: Seq<Seq<char>>, sep: Seq<char>) -> Seq<char>
    decreases parts.len(),
{
    if parts.len() == 0 {
        Seq::empty()
    } else if parts.len() == 1 {
        parts[0]
    } else {
        joined_text(parts.drop_last(), sep) + sep + parts.last()
    }
}

/// Joining a single text gives that text.
pub proof fn lemma_join_single(part: Seq<char>, sep: Seq<char>)
    ensures
        joined_text(seq![part], sep) == part,
{
}

/// Joining one text more appends the separator and that text.
pub proof fn lemma_join_push(parts: Seq<Seq<char>>, part: Seq<char>, sep: Seq<char>)
    requires
        parts.len() > 0,
    ensures
        joined_text(parts.push(part), sep) == joined_text(parts, sep) + sep + part,
{
    assert(parts.push(part).drop_last() =~= parts);
}

/// Joining with an empty separator writes the texts one after the other.
pub proof fn lemma_join_without_separator(parts: Seq<Seq<char>>)
    ensures
        joined_text(parts, Seq::empty()) == parts.flatten(),
    decreases parts.len(),
{
    parts.lemma_flatten_and_flatten_alt_are_equivalent();
    if parts.len() == 1 {
        assert(parts.drop_last() =~= Seq::<Seq<char>>::empty());
        assert(parts.drop_last().flatten_alt() =~= Seq::<char>::empty());
        assert(parts.flatten_alt() =~= parts[0]);
    } else if parts.len() > 1 {
        lemma_join_without_separator(parts.drop_last());
        parts.drop_last().lemma_flatten_and_flatten_alt_are_equivalent();
        assert(joined_text(parts, Seq::empty()) =~= parts.flatten_alt());
    }
}

/// The texts of a vector of strings.
pub open spec fn texts(parts: Seq<String>) -> Seq<Seq<char>> {
    parts.map_values(|s: String| s@)
}

/// Joins `parts` with `sep` between each two neighbours (what
/// `parts.join(sep)` gives).
pub fn join_with(parts: &Vec<String>, sep: &str) -> (joined: String)
    ensures
        joined@ == joined_text(texts(parts@), sep@),
{
    let mut joined = String::new();
    let ghost all = texts(parts@);
    let mut i: usize = 0;
    while i < parts.len()
        invariant
            i <= parts@.len(),
            all == texts(parts@),
            joined@ == joined_text(all.take(i as int), sep@),
        decreases parts@.len() - i,
    {
        proof {
            assert(all.take(i + 1).drop_last() =~= all.take(i as int));
            assert(all.take(i + 1).last() == parts@[i as int]@);
        }
        if i > 0 {
            joined.append(sep);
        }
        joined.append(parts[i].as_str());
        i = i + 1;
    }
    proof {
        assert(all.take(parts@.len() as int) =~= all);
    }
    joined
}

} // verus!
