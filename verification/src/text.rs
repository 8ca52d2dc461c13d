//! Character classes, runs of characters, and decimal integers: the text helpers
//! shared by the lexer and the built-in commands.

use vstd::prelude::*;
use vstd::string::*;

verus! {

/// Whether `c` is an alphabetic or numeric character in the sense of Unicode.
///
/// The property is a large table of code points, so it is left without a body here; the
/// interpreter only relies on it being a fixed property of the character.
pub uninterp spec fn unicode_alphanumeric(c: char) -> bool;

/// Calls `char::is_alphanumeric` from the standard library. Nothing is proved about the call:
/// the contract only says that the answer is the Unicode property of `c` under the name
/// [`unicode_alphanumeric`].
#[verifier::external_body]
fn char_is_alphanumeric(c: char) -> (b: bool)
    ensures
        b == unicode_alphanumeric(c),
{
    c.is_alphanumeric()
}

/// The characters with the Unicode property `White_Space`.
pub open spec fn unicode_whitespace(c: char) -> bool {
    let n = c as u32;
    (0x09 <= n <= 0x0d) || n == 0x20 || n == 0x85 || n == 0xa0 || n == 0x1680 || (0x2000 <= n
        <= 0x200a) || n == 0x2028 || n == 0x2029 || n == 0x202f || n == 0x205f || n == 0x3000
}

/// The sets of characters that the lexer and the commands scan over.
#[derive(Clone, Copy, Debug, PartialEq, Eq, Structural)]
pub enum CharClass {
    /// Blanks that separate the words of a command: space, tab, carriage return.
    Space,
    /// What ends a command, and the blanks around it: newline, `;`, space, tab, carriage return.
    Terminator,
    /// Characters of a variable name: alphanumeric or `_`.
    Name,
    /// Everything up to the end of the line.
    Line,
    /// Unicode white space.
    Blank,
    /// Everything but Unicode white space.
    Word,
}

impl CharClass {
    /// Membership of `c` in the class.
    pub open spec fn contains(self, c: char) -> bool {
        match self {
            CharClass::Space => c == ' ' || c == '\t' || c == '\r',
            CharClass::Terminator => c == ' ' || c == '\t' || c == '\r' || c == '\n' || c == ';',
            CharClass::Name => unicode_alphanumeric(c) || c == '_',
            CharClass::Line => c != '\n',
            CharClass::Blank => unicode_whitespace(c),
            CharClass::Word => !unicode_whitespace(c),
        }
    }

    /// Decides membership of `c` in the class.
    pub fn has(self, c: char) -> (b: bool)
        ensures
            b == self.contains(c),
    {
        match self {
            CharClass::Space => c == ' ' || c == '\t' || c == '\r',
            CharClass::Terminator => c == ' ' || c == '\t' || c == '\r' || c == '\n' || c == ';',
            CharClass::Name => c == '_' || char_is_alphanumeric(c),
            CharClass::Line => c != '\n',
            CharClass::Blank => is_whitespace(c),
            CharClass::Word => !is_whitespace(c),
        }
    }
}

/// Decides whether `c` is Unicode white space.
pub fn is_whitespace(c: char) -> (b: bool)
    ensures
        b == unicode_whitespace(c),
{
    let n: u32 = c as u32;
    (0x09 <= n && n <= 0x0d) || n == 0x20 || n == 0x85 || n == 0xa0 || n == 0x1680 || (0x2000 <= n
        && n <= 0x200a) || n == 0x2028 || n == 0x2029 || n == 0x202f || n == 0x205f || n == 0x3000
}

/// The end of the longest run of characters of `class` that starts at `from`: the first
/// position at or after `from` whose character is outside the class, or the end of `s`.
pub open spec fn run_end(s: Seq<char>, from: int, class: CharClass) -> int
    decreases s.len() - from,
{
    if 0 <= from < s.len() && class.contains(s[from]) {
        run_end(s, from + 1, class)
    } else {
        from
    }
}

/// A run ends within the text, holds only characters of the class, and cannot be extended.
pub proof fn lemma_run_end(s: Seq<char>, from: int, class: CharClass)
    requires
        0 <= from <= s.len(),
    ensures
        from <= run_end(s, from, class) <= s.len(),
        forall|j: int| from <= j < run_end(s, from, class) ==> class.contains(#[trigger] s[j]),
        run_end(s, from, class) < s.len() ==> !class.contains(s[run_end(s, from, class)]),
    decreases s.len() - from,
{
    if from < s.len() && class.contains(s[from]) {
        lemma_run_end(s, from + 1, class);
    }
}

/// Finds the end of the run of `class` that starts at `from`.
pub fn scan_run(text: &Vec<char>, from: usize, class: CharClass) -> (end: usize)
    requires
        from <= text.len(),
    ensures
        end == run_end(text@, from as int, class),
        from <= end <= text.len(),
{
    let mut pos: usize = from;
    while pos < text.len() && class.has(text[pos])
        invariant
            from <= pos <= text.len(),
            run_end(text@, from as int, class) == run_end(text@, pos as int, class),
        decreases text.len() - pos,
    {
        pos += 1;
    }
    pos
}

/// Copies the characters of `s` into a vector, so that they can be indexed in constant time.
pub fn to_chars(s: &str) -> (v: Vec<char>)
    ensures
        v@ == s@,
{
    broadcast use vstd::string::group_string_axioms;

    let mut v: Vec<char> = Vec::new();
    for c in it: s.chars()
        invariant
            it.seq() == s@,
            v@ == it.seq().take(it.index()),
    {
        v.push(c);
    }
    v
}

/// Decides whether `s` is exactly the one character `c`.
pub fn is_char(s: &str, c: char) -> (b: bool)
    ensures
        b == (s@ == seq![c]),
{
    let v = to_chars(s);
    let b = v.len() == 1 && v[0] == c;
    proof {
        if b {
            assert(s@ =~= seq![c]);
        } else if s@ == seq![c] {
            assert(seq![c].len() == 1);
            assert(seq![c][0] == c);
        }
    }
    b
}

/// Whether `c` is one of the ten decimal digits.
pub open spec fn is_digit(c: char) -> bool {
    '0' as u32 <= c as u32 <= '9' as u32
}

/// Whether `s` holds decimal digits only.
pub open spec fn all_digits(s: Seq<char>) -> bool {
    forall|i: int| 0 <= i < s.len() ==> is_digit(#[trigger] s[i])
}

/// The number that a sequence of decimal digits stands for.
pub open spec fn digits_value(s: Seq<char>) -> nat
    decreases s.len(),
{
    if s.len() == 0 {
        0
    } else {
        (digits_value(s.drop_last()) * 10 + (s.last() as u32 - '0' as u32)) as nat
    }
}

/// The 32-bit integer that `s` is the decimal form of, if it is one: an optional sign, at
/// least one digit and nothing else, with a value from -2147483648 to 2147483647.
pub open spec fn parse_int(s: Seq<char>) -> Option<i32> {
    let signed = s.len() > 0 && (s[0] == '-' || s[0] == '+');
    let digits = if signed { s.skip(1) } else { s };
    let value = if signed && s[0] == '-' {
        -digits_value(digits)
    } else {
        digits_value(digits) as int
    };
    if digits.len() > 0 && all_digits(digits) && i32::MIN <= value <= i32::MAX {
        Some(value as i32)
    } else {
        None
    }
}

/// The decimal form of a natural number, without leading zeros.
pub open spec fn nat_to_text(n: nat) -> Seq<char>
    decreases n,
{
    if n < 10 {
        seq![(n + '0' as u32) as char]
    } else {
        nat_to_text(n / 10).push((n % 10 + '0' as u32) as char)
    }
}

/// The decimal form of an integer, with `-` before a negative one.
pub open spec fn int_to_text(v: int) -> Seq<char> {
    if v < 0 {
        seq!['-'] + nat_to_text((-v) as nat)
    } else {
        nat_to_text(v as nat)
    }
}

/// The words of `s` from `from` on: the longest runs of characters that are not white space.
pub open spec fn split_words(s: Seq<char>, from: int) -> Seq<Seq<char>>
    decreases s.len() - from,
{
    let start = run_end(s, from, CharClass::Blank);
    let end = run_end(s, start, CharClass::Word);
    if 0 <= from <= start < end <= s.len() {
        seq![s.subrange(start, end)] + split_words(s, end)
    } else {
        Seq::empty()
    }
}

/// Reads a 32-bit integer in decimal form.
pub fn parse_i32(s: &str) -> (r: Option<i32>)
    ensures
        r == parse_int(s@),
{
    let v = to_chars(s);
    let n = v.len();
    if n == 0 {
        return None;
    }
    let negative = v[0] == '-';
    let first: usize = if v[0] == '-' || v[0] == '+' { 1 } else { 0 };
    if first == n {
        return None;
    }
    let ghost digits = s@.skip(first as int);
    assert(s@.skip(0) =~= s@);
    let mut acc: i64 = 0;
    let mut i: usize = first;
    while i < n
        invariant
            first <= i <= n,
            n == v.len(),
            v@ == s@,
            digits == s@.skip(first as int),
            first == 0 ==> digits == s@,
            first == if s@[0] == '-' || s@[0] == '+' { 1int } else { 0 },
            forall|k: int| 0 <= k < i - first ==> is_digit(#[trigger] digits[k]),
            0 <= acc <= 0x8000_0001,
            acc == if digits_value(digits.take(i - first)) < 0x8000_0001 {
                digits_value(digits.take(i - first)) as int
            } else {
                0x8000_0001
            },
        decreases n - i,
    {
        let c: u32 = v[i] as u32;
        assert(digits[i - first] == v@[i as int]);
        if c < 48 || c > 57 {
            assert(!is_digit(digits[i - first]));
            assert(!all_digits(digits));
            return None;
        }
        assert(digits.take(i + 1 - first).drop_last() =~= digits.take(i - first));
        acc = acc * 10 + (c - 48) as i64;
        if acc > 0x8000_0001 {
            acc = 0x8000_0001;
        }
        i += 1;
    }
    assert(digits.take(n - first) =~= digits);
    let value: i64 = if negative { -acc } else { acc };
    if value < -0x8000_0000 || value > 0x7fff_ffff {
        None
    } else {
        Some(value as i32)
    }
}

/// The decimal digit `d` as text.
fn digit_str(d: u32) -> (s: &'static str)
    requires
        d < 10,
    ensures
        s@ == seq![(d + '0' as u32) as char],
{
    let s = match d {
        0 => "0",
        1 => "1",
        2 => "2",
        3 => "3",
        4 => "4",
        5 => "5",
        6 => "6",
        7 => "7",
        8 => "8",
        _ => "9",
    };
    proof {
        reveal_strlit("0");
        reveal_strlit("1");
        reveal_strlit("2");
        reveal_strlit("3");
        reveal_strlit("4");
        reveal_strlit("5");
        reveal_strlit("6");
        reveal_strlit("7");
        reveal_strlit("8");
        reveal_strlit("9");
        assert(s@ =~= seq![(d + '0' as u32) as char]);
    }
    s
}

/// Writes a natural number in decimal form.
pub fn nat_to_string(n: u32) -> (s: String)
    ensures
        s@ == nat_to_text(n as nat),
    decreases n,
{
    if n < 10 {
        String::from_str(digit_str(n))
    } else {
        let s = nat_to_string(n / 10).concat(digit_str(n % 10));
        assert(s@ =~= nat_to_text((n / 10) as nat).push(((n % 10) + '0' as u32) as char));
        s
    }
}

/// Writes an integer in decimal form.
pub fn int_to_string(v: i32) -> (s: String)
    ensures
        s@ == int_to_text(v as int),
{
    if v < 0 {
        let m: u32 = (-(v as i64)) as u32;
        proof {
            reveal_strlit("-");
        }
        let s = String::from_str("-").concat(nat_to_string(m).as_str());
        assert(s@ =~= seq!['-'] + nat_to_text(m as nat));
        s
    } else {
        nat_to_string(v as u32)
    }
}

/// Splits `s` into its words.
pub fn split_whitespace(s: &str) -> (words: Vec<String>)
    ensures
        words.deep_view() == split_words(s@, 0),
{
    let chars = to_chars(s);
    let mut words: Vec<String> = Vec::new();
    let mut pos: usize = 0;
    assert(words.deep_view() =~= Seq::<Seq<char>>::empty());
    loop
        invariant
            pos <= chars.len(),
            chars@ == s@,
            words.deep_view() + split_words(s@, pos as int) == split_words(s@, 0),
        ensures
            words.deep_view() == split_words(s@, 0),
        decreases chars.len() - pos,
    {
        let start = scan_run(&chars, pos, CharClass::Blank);
        let end = scan_run(&chars, start, CharClass::Word);
        if start == end {
            assert(words.deep_view() + Seq::<Seq<char>>::empty() =~= words.deep_view());
            break ;
        }
        let word = String::from_str(s.substring_char(start, end));
        let ghost before = words.deep_view();
        words.push(word);
        assert(words.deep_view() =~= before.push(word@));
        assert(before.push(word@) + split_words(s@, end as int) =~= before + (seq![word@]
            + split_words(s@, end as int)));
        pos = end;
    }
    words
}

} // verus!
