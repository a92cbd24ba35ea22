//! Text building blocks: decimal digits and concatenation.

use vstd::prelude::*;
use vstd::string::*;

verus! {

/// The character of one decimal digit.
pub open spec fn digit_char(d: int) -> char {
    (('0' as int) + d) as char
}

/// The decimal digits of `n`, most significant first, without leading zeros.
pub open spec fn nat_text(n: nat) -> Seq<char>
    decreases n,
{
    if n < 10 {
        seq![digit_char(n as int)]
    } else {
        nat_text(n / 10).push(digit_char((n % 10) as int))
    }
}

/// The decimal digits of `n`, with a minus sign in front of a negative number.
pub open spec fn int_text(n: int) -> Seq<char> {
    if n < 0 {
        seq!['-'] + nat_text((-n) as nat)
    } else {
        nat_text(n as nat)
    }
}

/// The last `width` decimal digits of `n`, padded with zeros on the left.
pub open spec fn fixed_text(n: nat, width: nat) -> Seq<char>
    decreases width,
{
    if width == 0 {
        Seq::empty()
    } else {
        fixed_text(n / 10, (width - 1) as nat).push(digit_char((n % 10) as int))
    }
}

/// One digit as text.
fn digit_str(d: u64) -> (r: &'static str)
    requires
        d < 10,
    ensures
        r@ == seq![digit_char(d as int)],
{
    proof {
        reveal_strlit("0");
        reveal_strlit("1");
        reveal_strlit("2");
        reveal_strlit("3");
        reveal_strlit("4");
        reveal_strlit("5");
        reveal_strlit("6");
        reveal_strlit("7");
        reveal_strlit("8");
        reveal_strlit("9");
    }
    let r = match d {
        0 => "0",
        1 => "1",
        2 => "2",
        3 => "3",
        4 => "4",
        5 => "5",
        6 => "6",
        7 => "7",
        8 => "8",
        _ => "9",
    };
    assert(r@ =~= seq![digit_char(d as int)]);
    r
}

/// `n` in decimal.
pub fn u64_text(n: u64) -> (r: String)
    ensures
        r@ == nat_text(n as nat),
    decreases n,
{
    if n < 10 {
        let r = digit_str(n).to_owned();
        assert(r@ =~= nat_text(n as nat));
        r
    } else {
        let mut r = u64_text(n / 10);
        r.append(digit_str(n % 10));
        assert(r@ =~= nat_text(n as nat));
        r
    }
}

/// `n` in decimal, with its sign when negative.
pub fn i64_text(n: i64) -> (r: String)
    ensures
        r@ == int_text(n as int),
{
    if n >= 0 {
        u64_text(n as u64)
    } else {
        let m: u64 = if n == i64::MIN {
            9_223_372_036_854_775_808u64
        } else {
            (-n) as u64
        };
        proof {
            reveal_strlit("-");
        }
        let mut r = "-".to_owned();
        let tail = u64_text(m);
        r.append(tail.as_str());
        assert(r@ =~= int_text(n as int));
        r
    }
}

/// The character of one hexadecimal digit, in lower case.
pub open spec fn hex_char(d: int) -> char {
    if d < 10 {
        digit_char(d)
    } else {
        (('a' as int) + (d - 10)) as char
    }
}

/// The last `width` hexadecimal digits of `n`, padded with zeros on the left.
pub open spec fn hex_text(n: nat, width: nat) -> Seq<char>
    decreases width,
{
    if width == 0 {
        Seq::empty()
    } else {
        hex_text(n / 16, (width - 1) as nat).push(hex_char((n % 16) as int))
    }
}

fn hex_str(d: u32) -> (r: &'static str)
    requires
        d < 16,
    ensures
        r@ == seq![hex_char(d as int)],
{
    proof {
        reveal_strlit("a");
        reveal_strlit("b");
        reveal_strlit("c");
        reveal_strlit("d");
        reveal_strlit("e");
        reveal_strlit("f");
    }
    let r = match d {
        10 => "a",
        11 => "b",
        12 => "c",
        13 => "d",
        14 => "e",
        15 => "f",
        _ => digit_str(d as u64),
    };
    assert(r@ =~= seq![hex_char(d as int)]);
    r
}

/// The last `width` hexadecimal digits of `n`.
pub fn u32_hex(n: u32, width: u32) -> (r: String)
    ensures
        r@ == hex_text(n as nat, width as nat),
    decreases width,
{
    if width == 0 {
        proof {
            reveal_strlit("");
        }
        let r = "".to_owned();
        assert(r@ =~= hex_text(n as nat, 0));
        r
    } else {
        let mut r = u32_hex(n / 16, width - 1);
        r.append(hex_str(n % 16));
        assert(r@ =~= hex_text(n as nat, width as nat));
        r
    }
}

pub proof fn lemma_hex_text_len(n: nat, width: nat)
    ensures
        hex_text(n, width).len() == width,
    decreases width,
{
    if width > 0 {
        lemma_hex_text_len(n / 16, (width - 1) as nat);
    }
}

/// A number below `10^k` has at most `k` digits.
pub proof fn lemma_nat_text_len(n: nat, k: nat)
    requires
        k > 0,
        n < crate::decimal::pow10(k),
    ensures
        1 <= nat_text(n).len() <= k,
    decreases k,
{
    if n >= 10 {
        assert(k > 1) by {
            if k == 1 {
                assert(crate::decimal::pow10(1) == 10 * crate::decimal::pow10(0));
            }
        }
        lemma_nat_text_len(n / 10, (k - 1) as nat);
    }
}

proof fn lemma_nat_text_some(n: nat)
    ensures
        nat_text(n).len() >= 1,
        nat_text(n).last() == digit_char((n % 10) as int),
        n >= 10 ==> nat_text(n).len() >= 2 && nat_text(n).drop_last() == nat_text(n / 10),
        forall|i: int| 0 <= i < nat_text(n).len() ==> #[trigger] nat_text(n)[i] != '-',
    decreases n,
{
    if n >= 10 {
        lemma_nat_text_some(n / 10);
        assert(nat_text(n).drop_last() =~= nat_text(n / 10));
    }
}

/// Different numbers have different digits.
pub proof fn lemma_nat_text_injective(a: nat, b: nat)
    requires
        nat_text(a) == nat_text(b),
    ensures
        a == b,
    decreases a,
{
    lemma_nat_text_some(a);
    lemma_nat_text_some(b);
    assert(a % 10 == b % 10);
    if a >= 10 && b >= 10 {
        lemma_nat_text_injective(a / 10, b / 10);
    }
}

/// Different numbers have different texts.
pub proof fn lemma_int_text_injective(a: int, b: int)
    requires
        int_text(a) == int_text(b),
    ensures
        a == b,
{
    let m = (if a < 0 {
        -a
    } else {
        a
    }) as nat;
    let n = (if b < 0 {
        -b
    } else {
        b
    }) as nat;
    lemma_nat_text_some(m);
    lemma_nat_text_some(n);
    if a < 0 {
        assert(int_text(a)[0] == '-');
        assert(int_text(a).drop_first() =~= nat_text(m));
    }
    if b < 0 {
        assert(int_text(b)[0] == '-');
        assert(int_text(b).drop_first() =~= nat_text(n));
    }
    assert(a < 0 <==> b < 0);
    lemma_nat_text_injective(m, n);
}

/// Different numbers of at most `width` hexadecimal digits have different ones.
pub proof fn lemma_hex_text_injective(a: nat, b: nat, width: nat)
    requires
        hex_text(a, width) == hex_text(b, width),
        a < vstd::arithmetic::power::pow(16, width),
        b < vstd::arithmetic::power::pow(16, width),
    ensures
        a == b,
    decreases width,
{
    reveal(vstd::arithmetic::power::pow);
    if width > 0 {
        let w = (width - 1) as nat;
        assert(hex_text(a, width).drop_last() =~= hex_text(a / 16, w));
        assert(hex_text(b, width).drop_last() =~= hex_text(b / 16, w));
        assert(hex_text(a, width).last() == hex_char((a % 16) as int));
        assert(hex_text(b, width).last() == hex_char((b % 16) as int));
        lemma_hex_text_injective(a / 16, b / 16, w);
    }
}

/// `a` followed by `b`.
pub fn join2(a: &str, b: &str) -> (r: String)
    ensures
        r@ == a@ + b@,
{
    let mut r = a.to_owned();
    r.append(b);
    r
}

/// `a`, `b` and `c` in order.
pub fn join3(a: &str, b: &str, c: &str) -> (r: String)
    ensures
        r@ == a@ + b@ + c@,
{
    let mut r = join2(a, b);
    r.append(c);
    r
}

/// The four parts in order.
pub fn join4(a: &str, b: &str, c: &str, d: &str) -> (r: String)
    ensures
        r@ == a@ + b@ + c@ + d@,
{
    let mut r = join3(a, b, c);
    r.append(d);
    r
}

/// Whether two texts are the same.
pub fn same_text(a: &str, b: &str) -> (r: bool)
    ensures
        r == (a@ == b@),
{
    a.to_owned() == b.to_owned()
}

/// A copy of an optional string.
pub fn copy_text(o: &Option<String>) -> (r: Option<String>)
    ensures
        r == *o,
{
    match o {
        Some(s) => Some(s.clone()),
        None => None,
    }
}

/// `c` with the letters `A` to `Z` turned into `a` to `z`.
pub open spec fn lower_char(c: char) -> char {
    if 'A' as int <= c as int <= 'Z' as int {
        (c as int + 32) as char
    } else {
        c
    }
}

/// `c` with the letters `a` to `z` turned into `A` to `Z`.
pub open spec fn upper_char(c: char) -> char {
    if 'a' as int <= c as int <= 'z' as int {
        (c as int - 32) as char
    } else {
        c
    }
}

/// `s` with its ASCII capital letters lowered.
pub open spec fn lower_text(s: Seq<char>) -> Seq<char> {
    s.map_values(|c: char| lower_char(c))
}

/// `s` with its ASCII small letters raised.
pub open spec fn upper_text(s: Seq<char>) -> Seq<char> {
    s.map_values(|c: char| upper_char(c))
}

/// The letter at place `k` of the alphabet.
fn letter(k: usize, small: bool) -> (r: &'static str)
    requires
        k < 26,
    ensures
        r@ == seq![
            ((if small {
                'a' as int
            } else {
                'A' as int
            }) + k) as char,
        ],
{
    let all = if small {
        "abcdefghijklmnopqrstuvwxyz"
    } else {
        "ABCDEFGHIJKLMNOPQRSTUVWXYZ"
    };
    proof {
        reveal_strlit("abcdefghijklmnopqrstuvwxyz");
        reveal_strlit("ABCDEFGHIJKLMNOPQRSTUVWXYZ");
        assert(k == 0 || k == 1 || k == 2 || k == 3 || k == 4 || k == 5 || k == 6 || k == 7 ||
            k == 8 || k == 9 || k == 10 || k == 11 || k == 12 || k == 13 || k == 14 || k ==
            15 || k == 16 || k == 17 || k == 18 || k == 19 || k == 20 || k == 21 || k == 22
            || k == 23 || k == 24 || k == 25);
    }
    let r = all.substring_char(k, k + 1);
    assert(r@ =~= seq![all@[k as int]]);
    r
}

/// `s` with its ASCII capital letters lowered.
pub(crate) fn ascii_lower(s: &str) -> (r: String)
    ensures
        r@ == lower_text(s@),
{
    let mut r = String::new();
    let n = s.unicode_len();
    let mut i: usize = 0;
    assert(r@ =~= lower_text(s@).take(0));
    while i < n
        invariant
            i <= n,
            n == s@.len(),
            r@ == lower_text(s@).take(i as int),
        decreases n - i,
    {
        let c = s.get_char(i);
        if 'A' <= c && c <= 'Z' {
            r.append(letter((c as u32 - 'A' as u32) as usize, true));
        } else {
            r.append(s.substring_char(i, i + 1));
        }
        assert(r@ =~= lower_text(s@).take(i + 1));
        i = i + 1;
    }
    assert(lower_text(s@).take(n as int) =~= lower_text(s@));
    r
}

/// `s` with its ASCII small letters raised.
pub(crate) fn ascii_upper(s: &str) -> (r: String)
    ensures
        r@ == upper_text(s@),
{
    let mut r = String::new();
    let n = s.unicode_len();
    let mut i: usize = 0;
    assert(r@ =~= upper_text(s@).take(0));
    while i < n
        invariant
            i <= n,
            n == s@.len(),
            r@ == upper_text(s@).take(i as int),
        decreases n - i,
    {
        let c = s.get_char(i);
        if 'a' <= c && c <= 'z' {
            r.append(letter((c as u32 - 'a' as u32) as usize, false));
        } else {
            r.append(s.substring_char(i, i + 1));
        }
        assert(r@ =~= upper_text(s@).take(i + 1));
        i = i + 1;
    }
    assert(upper_text(s@).take(n as int) =~= upper_text(s@));
    r
}

/// What decimal digits stand for, most significant first.
pub open spec fn digits_value(s: Seq<char>) -> int
    decreases s.len(),
{
    if s.len() == 0 {
        0
    } else {
        10 * digits_value(s.drop_last()) + (s.last() as int - '0' as int)
    }
}

/// Whether a text holds decimal digits alone.
pub open spec fn all_digits(s: Seq<char>) -> bool {
    forall|i: int| 0 <= i < s.len() ==> '0' as int <= #[trigger] s[i] as int <= '9' as int
}

/// The digits of a number stand for the number, and none in front is a zero
/// but that of zero itself.
pub proof fn law_digits_read_back(n: nat)
    ensures
        nat_text(n).len() >= 1,
        all_digits(nat_text(n)),
        digits_value(nat_text(n)) == n,
        n > 0 ==> nat_text(n)[0] != '0',
    decreases n,
{
    let d = (n % 10) as int;
    assert(digit_char(d) as int == '0' as int + d);
    if n >= 10 {
        law_digits_read_back(n / 10);
        let head = nat_text(n / 10);
        let s = nat_text(n);
        assert(s.drop_last() =~= head);
        assert(forall|i: int| 0 <= i < head.len() ==> #[trigger] s[i] == head[i]);
    } else {
        assert(nat_text(n).drop_last() =~= Seq::empty());
        assert(digits_value(Seq::<char>::empty()) == 0);
    }
}

/// A signed number is a minus sign where it is negative, and the digits of its
/// magnitude.
pub proof fn law_sign_stands_in_front(n: int)
    ensures
        n >= 0 ==> all_digits(int_text(n)) && digits_value(int_text(n)) == n,
        n < 0 ==> {
            &&& int_text(n).len() >= 2
            &&& int_text(n)[0] == '-'
            &&& all_digits(int_text(n).drop_first())
            &&& digits_value(int_text(n).drop_first()) == -n
        },
{
    if n < 0 {
        law_digits_read_back((-n) as nat);
        assert(int_text(n).drop_first() =~= nat_text((-n) as nat));
    } else {
        law_digits_read_back(n as nat);
    }
}

/// A number below `10^width` is written with exactly `width` digits, which
/// stand for it.
pub proof fn law_fixed_digits_read_back(n: nat, width: nat)
    requires
        n < crate::decimal::pow10(width),
    ensures
        fixed_text(n, width).len() == width,
        all_digits(fixed_text(n, width)),
        digits_value(fixed_text(n, width)) == n,
    decreases width,
{
    if width > 0 {
        let d = (n % 10) as int;
        let w = (width - 1) as nat;
        assert(digit_char(d) as int == '0' as int + d);
        assert(crate::decimal::pow10(width) == 10 * crate::decimal::pow10(w));
        law_fixed_digits_read_back(n / 10, w);
        let head = fixed_text(n / 10, w);
        let s = fixed_text(n, width);
        assert(s.drop_last() =~= head);
        assert(forall|i: int| 0 <= i < head.len() ==> #[trigger] s[i] == head[i]);
    }
}

/// Lowering a text changes its capital letters into the small ones 32 places on
/// and nothing else; raising it does the reverse.
pub proof fn law_case_changes_letters_only(s: Seq<char>, i: int)
    requires
        0 <= i < s.len(),
    ensures
        lower_text(s).len() == s.len(),
        upper_text(s).len() == s.len(),
        65 <= s[i] as int <= 90 ==> lower_text(s)[i] as int == s[i] as int + 32,
        !(65 <= s[i] as int <= 90) ==> lower_text(s)[i] == s[i],
        97 <= s[i] as int <= 122 ==> upper_text(s)[i] as int == s[i] as int - 32,
        !(97 <= s[i] as int <= 122) ==> upper_text(s)[i] == s[i],
{
}

/// A text that was lowered stays as it is when it is lowered again, whether or
/// not it was raised before.
pub proof fn law_case_does_not_matter_once_lowered(s: Seq<char>)
    ensures
        lower_text(lower_text(s)) == lower_text(s),
        lower_text(upper_text(s)) == lower_text(s),
{
    assert(lower_text(lower_text(s)) =~= lower_text(s));
    assert(lower_text(upper_text(s)) =~= lower_text(s));
}

/// What hexadecimal digits in lower case stand for, most significant first.
pub open spec fn hex_value(s: Seq<char>) -> int
    decreases s.len(),
{
    if s.len() == 0 {
        0
    } else {
        16 * hex_value(s.drop_last()) + (if s.last() as int >= 'a' as int {
            s.last() as int - 'a' as int + 10
        } else {
            s.last() as int - '0' as int
        })
    }
}

/// A number below `16^width` is written with exactly `width` hexadecimal digits
/// in lower case, which stand for it.
pub proof fn law_hex_digits_read_back(n: nat, width: nat)
    requires
        n < vstd::arithmetic::power::pow(16, width),
    ensures
        hex_text(n, width).len() == width,
        hex_value(hex_text(n, width)) == n,
        forall|i: int|
            0 <= i < width ==> {
                ||| '0' as int <= #[trigger] hex_text(n, width)[i] as int <= '9' as int
                ||| 'a' as int <= hex_text(n, width)[i] as int <= 'f' as int
            },
    decreases width,
{
    reveal(vstd::arithmetic::power::pow);
    if width > 0 {
        let w = (width - 1) as nat;
        let d = (n % 16) as int;
        law_hex_digits_read_back(n / 16, w);
        let head = hex_text(n / 16, w);
        let s = hex_text(n, width);
        assert(s.drop_last() =~= head);
        assert(s.last() == hex_char(d));
        assert(d < 10 ==> hex_char(d) as int == '0' as int + d);
        assert(d >= 10 ==> hex_char(d) as int == 'a' as int + (d - 10));
        assert(forall|i: int| 0 <= i < head.len() ==> #[trigger] s[i] == head[i]);
    }
}

} // verus!
