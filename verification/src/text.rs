//! Text rendering helpers: hexadecimal and decimal numerals, ASCII case folding.

use vstd::prelude::*;

verus! {

/// Uppercase hexadecimal digit for a value below 16.
pub open spec fn hex_digit_upper(d: nat) -> char {
    if d < 10 {
        (('0' as nat) + d) as char
    } else {
        (('A' as nat) + (d - 10)) as char
    }
}

/// Lowercase hexadecimal digit for a value below 16.
pub open spec fn hex_digit_lower(d: nat) -> char {
    if d < 10 {
        (('0' as nat) + d) as char
    } else {
        (('a' as nat) + (d - 10)) as char
    }
}

/// Minimal uppercase hexadecimal numeral of `n` (no prefix, no leading zeros; "0" for 0).
pub open spec fn hex_upper(n: nat) -> Seq<char>
    decreases n,
{
    if n < 16 {
        seq![hex_digit_upper(n)]
    } else {
        hex_upper(n / 16).push(hex_digit_upper(n % 16))
    }
}

/// Appends `c` to `s` (`String::push`).
#[verifier::external_body]
pub(crate) fn push_char(s: &mut String, c: char)
    ensures
        final(s)@ == old(s)@.push(c),
{
    s.push(c);
}

fn hex_digit_char_upper(d: u64) -> (c: char)
    requires
        d < 16,
    ensures
        c == hex_digit_upper(d as nat),
{
    if d < 10 {
        ((48 + d) as u8) as char
    } else {
        ((55 + d) as u8) as char
    }
}

/// Appends the minimal uppercase hexadecimal numeral of `n` to `s`.
pub fn push_hex_upper(s: &mut String, n: u64)
    ensures
        final(s)@ == old(s)@ + hex_upper(n as nat),
    decreases n,
{
    if n >= 16 {
        push_hex_upper(s, n / 16);
    }
    push_char(s, hex_digit_char_upper(n % 16));
}


/// `"0x"` followed by the minimal uppercase hexadecimal numeral of `n`.
pub open spec fn prefixed_hex_upper(n: nat) -> Seq<char> {
    seq!['0', 'x'] + hex_upper(n)
}

/// Renders `n` as `0x` followed by its minimal uppercase hexadecimal numeral.
pub fn hex_string_upper(n: u64) -> (s: String)
    ensures
        s@ == prefixed_hex_upper(n as nat),
{
    let mut s = String::new();
    push_char(&mut s, '0');
    push_char(&mut s, 'x');
    push_hex_upper(&mut s, n);
    s
}

/// Each byte read as the character with the same code (Latin-1 reading).
pub open spec fn bytes_as_chars(b: Seq<u8>) -> Seq<char> {
    b.map_values(|x: u8| x as char)
}

/// The characters whose codes are the bytes `data[start..end]`.
pub fn chars_of_bytes(data: &[u8], start: usize, end: usize) -> (s: String)
    requires
        start <= end <= data@.len(),
    ensures
        s@ == bytes_as_chars(data@.subrange(start as int, end as int)),
{
    let mut s = String::new();
    let mut i = start;
    while i < end
        invariant
            start <= i <= end <= data@.len(),
            s@ == bytes_as_chars(data@.subrange(start as int, i as int)),
        decreases end - i,
    {
        push_char(&mut s, data[i] as char);
        assert(data@.subrange(start as int, i + 1) == data@.subrange(start as int, i as int).push(
            data@[i as int],
        ));
        i += 1;
    }
    s
}


/// Exactly four uppercase hexadecimal digits of a 16-bit value.
pub open spec fn hex4_upper(n: u16) -> Seq<char> {
    seq![
        hex_digit_upper((n as nat / 4096) % 16),
        hex_digit_upper((n as nat / 256) % 16),
        hex_digit_upper((n as nat / 16) % 16),
        hex_digit_upper(n as nat % 16),
    ]
}

/// Appends the four uppercase hexadecimal digits of `n` to `s`.
pub fn push_hex4_upper(s: &mut String, n: u16)
    ensures
        final(s)@ == old(s)@ + hex4_upper(n),
{
    let v = n as u64;
    push_char(s, hex_digit_char_upper((v / 4096) % 16));
    push_char(s, hex_digit_char_upper((v / 256) % 16));
    push_char(s, hex_digit_char_upper((v / 16) % 16));
    push_char(s, hex_digit_char_upper(v % 16));
    assert(final(s)@ =~= old(s)@ + hex4_upper(n));
}

/// Decimal digit character for a value below 10.
pub open spec fn dec_digit(d: nat) -> char {
    (('0' as nat) + d) as char
}

/// Minimal decimal numeral of `n` ("0" for 0).
pub open spec fn decimal(n: nat) -> Seq<char>
    decreases n,
{
    if n < 10 {
        seq![dec_digit(n)]
    } else {
        decimal(n / 10).push(dec_digit(n % 10))
    }
}

/// Appends the minimal decimal numeral of `n` to `s`.
pub fn push_decimal(s: &mut String, n: u64)
    ensures
        final(s)@ == old(s)@ + decimal(n as nat),
    decreases n,
{
    if n >= 10 {
        push_decimal(s, n / 10);
    }
    push_char(s, ((48 + n % 10) as u8) as char);
}

/// Two lowercase hexadecimal digits per byte, most significant first.
pub open spec fn hex_lower_bytes(b: Seq<u8>) -> Seq<char>
    decreases b.len(),
{
    if b.len() == 0 {
        seq![]
    } else {
        hex_lower_bytes(b.drop_last()) + seq![
            hex_digit_lower(b.last() as nat / 16),
            hex_digit_lower(b.last() as nat % 16),
        ]
    }
}

fn hex_digit_char_lower(d: u8) -> (c: char)
    requires
        d < 16,
    ensures
        c == hex_digit_lower(d as nat),
{
    if d < 10 {
        (48 + d) as char
    } else {
        (87 + d) as char
    }
}

/// Renders bytes as lowercase hexadecimal, two digits per byte.
pub fn hex_string_lower(b: &[u8]) -> (s: String)
    ensures
        s@ == hex_lower_bytes(b@),
{
    let mut s = String::new();
    let mut i: usize = 0;
    while i < b.len()
        invariant
            i <= b@.len(),
            s@ == hex_lower_bytes(b@.take(i as int)),
        decreases b@.len() - i,
    {
        assert(b@.take(i + 1).drop_last() =~= b@.take(i as int));
        push_char(&mut s, hex_digit_char_lower(b[i] / 16));
        push_char(&mut s, hex_digit_char_lower(b[i] % 16));
        i += 1;
        assert(s@ =~= hex_lower_bytes(b@.take(i as int)));
    }
    assert(b@.take(i as int) =~= b@);
    s
}

/// ASCII case folding of one character: `A`..`Z` become `a`..`z`, all else is unchanged.
pub open spec fn ascii_lower_char(c: char) -> char {
    if 'A' <= c <= 'Z' {
        ((c as nat) + 32) as char
    } else {
        c
    }
}

/// ASCII case folding of a text.
pub open spec fn ascii_lower(s: Seq<char>) -> Seq<char> {
    s.map_values(|c: char| ascii_lower_char(c))
}

/// ASCII case folding of one character.
pub fn ascii_lowercase_char(c: char) -> (r: char)
    ensures
        r == ascii_lower_char(c),
{
    if 'A' <= c && c <= 'Z' {
        ((c as u32) + 32) as u8 as char
    } else {
        c
    }
}

/// ASCII case folding of a text.
pub fn ascii_lowercase(s: &str) -> (r: String)
    ensures
        r@ == ascii_lower(s@),
{
    let n = s.unicode_len();
    let mut r = String::new();
    let mut i: usize = 0;
    while i < n
        invariant
            n == s@.len(),
            i <= n,
            r@ == ascii_lower(s@.take(i as int)),
        decreases n - i,
    {
        push_char(&mut r, ascii_lowercase_char(s.get_char(i)));
        assert(s@.take(i + 1) =~= s@.take(i as int).push(s@[i as int]));
        i += 1;
        assert(r@ =~= ascii_lower(s@.take(i as int)));
    }
    assert(s@.take(n as int) =~= s@);
    r
}

/// The entries joined with single commas between them.
pub open spec fn join_comma(entries: Seq<Seq<char>>) -> Seq<char>
    decreases entries.len(),
{
    if entries.len() == 0 {
        seq![]
    } else if entries.len() == 1 {
        entries[0]
    } else {
        join_comma(entries.drop_last()) + seq![','] + entries.last()
    }
}

pub proof fn lemma_join_comma_push(entries: Seq<Seq<char>>, x: Seq<char>)
    ensures
        join_comma(entries.push(x)) == if entries.len() == 0 {
            x
        } else {
            join_comma(entries) + seq![','] + x
        },
{
    assert(entries.push(x).drop_last() =~= entries);
}


/// Minimal lowercase hexadecimal numeral of `n`.
pub open spec fn hex_lower(n: nat) -> Seq<char>
    decreases n,
{
    if n < 16 {
        seq![hex_digit_lower(n)]
    } else {
        hex_lower(n / 16).push(hex_digit_lower(n % 16))
    }
}

/// Appends the minimal lowercase hexadecimal numeral of `n` to `s`.
pub fn push_hex_lower(s: &mut String, n: u64)
    ensures
        final(s)@ == old(s)@ + hex_lower(n as nat),
    decreases n,
{
    if n >= 16 {
        push_hex_lower(s, n / 16);
    }
    push_char(s, hex_digit_char_lower((n % 16) as u8));
}

/// Renders `n` as `0x` followed by its minimal lowercase hexadecimal numeral.
pub fn hex_string_lower_num(n: u64) -> (s: String)
    ensures
        s@ == seq!['0', 'x'] + hex_lower(n as nat),
{
    let mut s = String::new();
    push_char(&mut s, '0');
    push_char(&mut s, 'x');
    push_hex_lower(&mut s, n);
    s
}

/// A decimal digit character `0`..`9`.
pub open spec fn is_dec_digit(c: char) -> bool {
    '0' <= c <= '9'
}

/// The number a string of digits denotes in base 10, most significant digit first
/// (0 for the empty string).
pub open spec fn decimal_value(s: Seq<char>) -> int
    decreases s.len(),
{
    if s.len() == 0 {
        0
    } else {
        decimal_value(s.drop_last()) * 10 + ((s.last() as int) - ('0' as int))
    }
}

/// A canonical base-10 numeral: at least one digit, only digits, and no leading zero
/// unless it is the single digit `0`.
pub open spec fn is_decimal_numeral(s: Seq<char>) -> bool {
    &&& s.len() > 0
    &&& forall|i: int| 0 <= i < s.len() ==> is_dec_digit(#[trigger] s[i])
    &&& (s.len() > 1 ==> s[0] != '0')
}

/// Law: `decimal(n)` is a canonical base-10 numeral, and reading it back gives `n`.
pub proof fn lemma_decimal_reads_back(n: nat)
    ensures
        is_decimal_numeral(decimal(n)),
        decimal_value(decimal(n)) == n,
        n >= 10 ==> decimal(n).len() > 1,
    decreases n,
{
    let s = decimal(n);
    if n < 10 {
        assert(s.drop_last() =~= Seq::<char>::empty());
        assert((dec_digit(n) as int) - ('0' as int) == n);
        assert(decimal_value(s) == decimal_value(s.drop_last()) * 10 + n);
    } else {
        assert((dec_digit(n % 10) as int) - ('0' as int) == n % 10);
        lemma_decimal_reads_back(n / 10);
        let p = decimal(n / 10);
        assert(s.drop_last() =~= p);
        assert(s[0] == p[0]);
        assert forall|i: int| 0 <= i < s.len() implies is_dec_digit(#[trigger] s[i]) by {
            if i < p.len() {
                assert(s[i] == p[i]);
            }
        }
        if n / 10 < 10 {
            assert(p[0] == dec_digit(n / 10));
        }
        assert(s.last() == dec_digit(n % 10));
        assert(decimal_value(s) == decimal_value(p) * 10 + (n % 10));
        assert((n / 10) * 10 + n % 10 == n);
    }
}

/// An uppercase hexadecimal digit character `0`..`9`, `A`..`F`.
pub open spec fn is_hex_digit_upper(c: char) -> bool {
    ('0' <= c <= '9') || ('A' <= c <= 'F')
}

/// The value of one uppercase hexadecimal digit character.
pub open spec fn hex_digit_value_upper(c: char) -> int {
    if '0' <= c <= '9' {
        (c as int) - ('0' as int)
    } else {
        (c as int) - ('A' as int) + 10
    }
}

/// The number a string of uppercase hexadecimal digits denotes in base 16, most
/// significant digit first (0 for the empty string).
pub open spec fn hex_upper_value(s: Seq<char>) -> int
    decreases s.len(),
{
    if s.len() == 0 {
        0
    } else {
        hex_upper_value(s.drop_last()) * 16 + hex_digit_value_upper(s.last())
    }
}

/// A canonical uppercase base-16 numeral: at least one digit, only digits `0`..`9` and
/// `A`..`F`, and no leading zero unless it is the single digit `0`.
pub open spec fn is_hex_upper_numeral(s: Seq<char>) -> bool {
    &&& s.len() > 0
    &&& forall|i: int| 0 <= i < s.len() ==> is_hex_digit_upper(#[trigger] s[i])
    &&& (s.len() > 1 ==> s[0] != '0')
}

/// Law: `hex_upper(n)` is a canonical uppercase base-16 numeral, and reading it back
/// gives `n`.
pub proof fn lemma_hex_upper_reads_back(n: nat)
    ensures
        is_hex_upper_numeral(hex_upper(n)),
        hex_upper_value(hex_upper(n)) == n,
        n >= 16 ==> hex_upper(n).len() > 1,
    decreases n,
{
    let s = hex_upper(n);
    if n < 16 {
        assert(s.drop_last() =~= Seq::<char>::empty());
        assert(hex_digit_value_upper(hex_digit_upper(n)) == n);
        assert(hex_upper_value(s) == hex_upper_value(s.drop_last()) * 16 + n);
    } else {
        assert(hex_digit_value_upper(hex_digit_upper(n % 16)) == n % 16);
        lemma_hex_upper_reads_back(n / 16);
        let p = hex_upper(n / 16);
        assert(s.drop_last() =~= p);
        assert(s[0] == p[0]);
        assert forall|i: int| 0 <= i < s.len() implies is_hex_digit_upper(#[trigger] s[i]) by {
            if i < p.len() {
                assert(s[i] == p[i]);
            }
        }
        if n / 16 < 16 {
            assert(p[0] == hex_digit_upper(n / 16));
        }
        assert(s.last() == hex_digit_upper(n % 16));
        assert(hex_upper_value(s) == hex_upper_value(p) * 16 + (n % 16));
        assert((n / 16) * 16 + n % 16 == n);
    }
}

/// Law: `prefixed_hex_upper(n)` is `0x` followed by a canonical uppercase base-16
/// numeral whose value is `n`.
pub proof fn lemma_prefixed_hex_upper_reads_back(n: nat)
    ensures
        prefixed_hex_upper(n).len() >= 3,
        prefixed_hex_upper(n).take(2) == seq!['0', 'x'],
        is_hex_upper_numeral(prefixed_hex_upper(n).skip(2)),
        hex_upper_value(prefixed_hex_upper(n).skip(2)) == n,
{
    lemma_hex_upper_reads_back(n);
    assert(prefixed_hex_upper(n).take(2) =~= seq!['0', 'x']);
    assert(prefixed_hex_upper(n).skip(2) =~= hex_upper(n));
}

} // verus!
