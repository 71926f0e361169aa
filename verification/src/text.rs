use vstd::prelude::*;

verus! {

// ---------------------------------------------------------------------------
// Digits and numbers as text
// ---------------------------------------------------------------------------

/// The decimal digit char for `d` (0 ..= 9).
pub open spec fn digit_char(d: int) -> char {
    (48 + d) as char
}

/// The upper-case hexadecimal digit char for `d` (0 ..= 15).
pub open spec fn hex_char(d: int) -> char {
    if d < 10 {
        (48 + d) as char
    } else {
        (55 + d) as char
    }
}

/// Two upper-case hex digits for a byte, as `{:02X}` writes it.
pub open spec fn hex_byte(b: u8) -> Seq<char> {
    seq![hex_char((b / 16) as int), hex_char((b % 16) as int)]
}

/// The decimal text of `n`, without leading zeros, as `{}` writes it.
pub open spec fn decimal(n: nat) -> Seq<char>
    decreases n,
{
    if n < 10 {
        seq![digit_char(n as int)]
    } else {
        decimal(n / 10).push(digit_char((n % 10) as int))
    }
}

/// The decimal text of a signed integer, as `{}` writes it.
pub open spec fn signed_decimal(v: int) -> Seq<char> {
    if v < 0 {
        seq!['-'] + decimal((-v) as nat)
    } else {
        decimal(v as nat)
    }
}

/// 10 to the power `k`.
pub open spec fn pow10(k: nat) -> nat
    decreases k,
{
    if k == 0 {
        1
    } else {
        10 * pow10((k - 1) as nat)
    }
}

/// The last `places` decimal digits of `r`, with leading zeros.
pub open spec fn frac_digits(r: nat, places: nat) -> Seq<char>
    decreases places,
{
    if places == 0 {
        seq![]
    } else {
        frac_digits(r / 10, (places - 1) as nat).push(digit_char((r % 10) as int))
    }
}

/// `units / 10^places` written with exactly `places` decimals, as `{:.N}` writes
/// a non-negative number that is a whole number of such units.
pub open spec fn fixed(units: nat, places: nat) -> Seq<char> {
    decimal(units / pow10(places)) + seq!['.'] + frac_digits(units % pow10(places), places)
}

/// A signed fixed-point text: a minus sign for negative values, then the
/// magnitude, as `{:.N}` writes it.
pub open spec fn signed_fixed(negative: bool, units: nat, places: nat) -> Seq<char> {
    if negative {
        seq!['-'] + fixed(units, places)
    } else {
        fixed(units, places)
    }
}

/// `num / den` rounded to the nearest integer, ties to the even neighbour.
pub open spec fn round_half_even(num: nat, den: nat) -> nat
    recommends
        den > 0,
{
    let q = num / den;
    let r = num % den;
    if 2 * r > den {
        q + 1
    } else if 2 * r < den {
        q
    } else if q % 2 == 0 {
        q
    } else {
        q + 1
    }
}

/// `Debug` text of a byte slice: `[1, 2, 3]`.
pub open spec fn debug_bytes(data: Seq<u8>) -> Seq<char> {
    seq!['['] + debug_byte_items(data) + seq![']']
}

/// The items of a byte list in `Debug` form, separated by `", "`.
pub open spec fn debug_byte_items(data: Seq<u8>) -> Seq<char>
    decreases data.len(),
{
    if data.len() == 0 {
        seq![]
    } else if data.len() == 1 {
        decimal(data[0] as nat)
    } else {
        debug_byte_items(data.drop_last()) + seq![',', ' '] + decimal(data.last() as nat)
    }
}

// ---------------------------------------------------------------------------
// Character classes
// ---------------------------------------------------------------------------

/// The value of a hexadecimal digit char (either case), as `char::to_digit(16)`.
pub open spec fn hex_value(c: char) -> Option<u8> {
    if '0' <= c && c <= '9' {
        Some(((c as int) - 48) as u8)
    } else if 'A' <= c && c <= 'F' {
        Some(((c as int) - 55) as u8)
    } else if 'a' <= c && c <= 'f' {
        Some(((c as int) - 87) as u8)
    } else {
        None
    }
}

/// The value of a decimal digit char, as `char::to_digit(10)`.
pub open spec fn decimal_value(c: char) -> Option<u8> {
    if '0' <= c && c <= '9' {
        Some(((c as int) - 48) as u8)
    } else {
        None
    }
}

/// Unicode `White_Space`, the set that `char::is_whitespace` and `str::trim` use.
pub open spec fn is_white_space(c: char) -> bool {
    let u = c as u32;
    ||| (9 <= u && u <= 13)
    ||| u == 32
    ||| u == 0x85
    ||| u == 0xA0
    ||| u == 0x1680
    ||| (0x2000 <= u && u <= 0x200A)
    ||| u == 0x2028
    ||| u == 0x2029
    ||| u == 0x202F
    ||| u == 0x205F
    ||| u == 0x3000
}

/// `s` without its leading white space.
pub open spec fn trim_start(s: Seq<char>) -> Seq<char>
    decreases s.len(),
{
    if s.len() > 0 && is_white_space(s[0]) {
        trim_start(s.drop_first())
    } else {
        s
    }
}

/// `s` without its trailing white space.
pub open spec fn trim_end(s: Seq<char>) -> Seq<char>
    decreases s.len(),
{
    if s.len() > 0 && is_white_space(s.last()) {
        trim_end(s.drop_last())
    } else {
        s
    }
}

/// `s` without leading and trailing white space (`str::trim`).
pub open spec fn trim(s: Seq<char>) -> Seq<char> {
    trim_end(trim_start(s))
}

/// Number of bytes that the UTF-8 encoding of `c` takes.
pub open spec fn utf8_width(c: char) -> int {
    let u = c as u32;
    if u < 0x80 {
        1
    } else if u < 0x800 {
        2
    } else if u < 0x10000 {
        3
    } else {
        4
    }
}

/// Number of bytes that the UTF-8 encoding of `s` takes (`str::len`).
pub open spec fn utf8_len(s: Seq<char>) -> int
    decreases s.len(),
{
    if s.len() == 0 {
        0
    } else {
        utf8_width(s[0]) + utf8_len(s.drop_first())
    }
}

/// Byte offset `n` of the UTF-8 encoding of `s` falls between two chars
/// (`str::is_char_boundary`).
pub open spec fn byte_boundary(s: Seq<char>, n: int) -> bool
    decreases s.len(),
{
    if n <= 0 {
        n == 0
    } else if s.len() == 0 {
        false
    } else {
        byte_boundary(s.drop_first(), n - utf8_width(s[0]))
    }
}

/// How many chars of `s` make up its first `n` bytes.
pub open spec fn chars_in_bytes(s: Seq<char>, n: int) -> int
    decreases s.len(),
{
    if n <= 0 || s.len() == 0 {
        0
    } else {
        1 + chars_in_bytes(s.drop_first(), n - utf8_width(s[0]))
    }
}

/// `s` holds `pat` at char position `i`.
pub open spec fn occurs_at(s: Seq<char>, pat: Seq<char>, i: int) -> bool {
    0 <= i && i + pat.len() <= s.len() && s.subrange(i, i + pat.len()) == pat
}

/// `s` holds `pat` somewhere (`str::contains`).
pub open spec fn contains(s: Seq<char>, pat: Seq<char>) -> bool {
    exists|i: int| occurs_at(s, pat, i)
}

/// The first position at or after `i` where `s` holds `pat` (`str::find`).
pub open spec fn find_from(s: Seq<char>, pat: Seq<char>, i: int) -> Option<int>
    decreases s.len() + 1 - i,
{
    if i < 0 || i + pat.len() > s.len() {
        None
    } else if occurs_at(s, pat, i) {
        Some(i)
    } else {
        find_from(s, pat, i + 1)
    }
}

/// `find_from` finds a position exactly when `pat` occurs at or after `i`,
/// and the position it finds is the first one.
pub proof fn lemma_find_from(s: Seq<char>, pat: Seq<char>, i: int)
    requires
        0 <= i,
    ensures
        find_from(s, pat, i) is Some <==> exists|j: int| i <= j && occurs_at(s, pat, j),
        find_from(s, pat, i) matches Some(p) ==> i <= p && occurs_at(s, pat, p) && forall|j: int|
            i <= j < p ==> !occurs_at(s, pat, j),
    decreases s.len() + 1 - i,
{
    if i + pat.len() <= s.len() && !occurs_at(s, pat, i) {
        lemma_find_from(s, pat, i + 1);
        if exists|j: int| i <= j && occurs_at(s, pat, j) {
            let j = choose|j: int| i <= j && occurs_at(s, pat, j);
            assert(i + 1 <= j);
        }
    }
}

/// Mapping an optional string to its chars.
pub open spec fn opt_text(o: Option<String>) -> Option<Seq<char>> {
    match o {
        Some(s) => Some(s@),
        None => None,
    }
}

// ---------------------------------------------------------------------------
// Executable helpers
// ---------------------------------------------------------------------------

/// `String::push`: appends one char. Claimed: afterwards the text is the text
/// before with `c` added at its end.
#[verifier::external_body]
pub(crate) fn push_char(s: &mut String, c: char)
    ensures
        final(s)@ == old(s)@.push(c),
{
    s.push(c);
}

/// The chars of `s`, in order.
pub(crate) fn chars_of(s: &str) -> (r: Vec<char>)
    ensures
        r@ == s@,
{
    let n = s.unicode_len();
    let mut r: Vec<char> = Vec::new();
    let mut i: usize = 0;
    while i < n
        invariant
            n == s@.len(),
            i <= n,
            r@ == s@.take(i as int),
        decreases n - i,
    {
        let c = s.get_char(i);
        r.push(c);
        i = i + 1;
        assert(r@ =~= s@.take(i as int));
    }
    assert(r@ =~= s@);
    r
}

/// The decimal digit char for `d`.
pub(crate) fn digit(d: u8) -> (c: char)
    requires
        d < 10,
    ensures
        c == digit_char(d as int),
{
    (48u8 + d) as char
}

/// The upper-case hex digit char for `d`.
pub(crate) fn hex_digit(d: u8) -> (c: char)
    requires
        d < 16,
    ensures
        c == hex_char(d as int),
{
    if d < 10 {
        (48u8 + d) as char
    } else {
        (55u8 + d) as char
    }
}

/// Appends the two upper-case hex digits of `b`.
pub(crate) fn push_hex_byte(s: &mut String, b: u8)
    ensures
        final(s)@ == old(s)@ + hex_byte(b),
{
    push_char(s, hex_digit(b / 16));
    push_char(s, hex_digit(b % 16));
    assert(s@ =~= old(s)@ + hex_byte(b));
}

/// Appends the decimal text of `n`.
pub(crate) fn push_decimal(s: &mut String, n: u64)
    ensures
        final(s)@ == old(s)@ + decimal(n as nat),
    decreases n,
{
    if n < 10 {
        push_char(s, digit(n as u8));
        assert(s@ =~= old(s)@ + decimal(n as nat));
    } else {
        push_decimal(s, n / 10);
        push_char(s, digit((n % 10) as u8));
        assert(s@ =~= old(s)@ + decimal(n as nat));
    }
}

/// Appends the decimal text of a signed integer.
pub(crate) fn push_signed_decimal(s: &mut String, v: i64)
    requires
        v > i64::MIN,
    ensures
        final(s)@ == old(s)@ + signed_decimal(v as int),
{
    if v < 0 {
        push_char(s, '-');
        push_decimal(s, (-v) as u64);
        assert(s@ =~= old(s)@ + signed_decimal(v as int));
    } else {
        push_decimal(s, v as u64);
    }
}

/// Appends the last `places` decimal digits of `r`, with leading zeros.
pub(crate) fn push_frac_digits(s: &mut String, r: u64, places: u32)
    ensures
        final(s)@ == old(s)@ + frac_digits(r as nat, places as nat),
    decreases places,
{
    if places > 0 {
        push_frac_digits(s, r / 10, places - 1);
        push_char(s, digit((r % 10) as u8));
        assert(s@ =~= old(s)@ + frac_digits(r as nat, places as nat));
    } else {
        assert(s@ =~= old(s)@ + frac_digits(r as nat, places as nat));
    }
}

/// `10^k` as a machine integer.
pub(crate) fn pow10_u64(k: u32) -> (p: u64)
    requires
        k <= 6,
    ensures
        p == pow10(k as nat),
        p > 0,
    decreases k,
{
    if k == 0 {
        1
    } else {
        let q = pow10_u64(k - 1);
        assert(q <= 100000) by {
            reveal_with_fuel(pow10, 7);
        }
        10 * q
    }
}

/// Appends `units / 10^places` with exactly `places` decimals.
pub(crate) fn push_fixed(s: &mut String, units: u64, places: u32)
    requires
        places <= 6,
    ensures
        final(s)@ == old(s)@ + fixed(units as nat, places as nat),
{
    let p = pow10_u64(places);
    push_decimal(s, units / p);
    push_char(s, '.');
    push_frac_digits(s, units % p, places);
    assert(s@ =~= old(s)@ + fixed(units as nat, places as nat));
}

/// Appends a signed fixed-point number.
pub(crate) fn push_signed_fixed(s: &mut String, negative: bool, units: u64, places: u32)
    requires
        places <= 6,
    ensures
        final(s)@ == old(s)@ + signed_fixed(negative, units as nat, places as nat),
{
    if negative {
        push_char(s, '-');
        push_fixed(s, units, places);
        assert(s@ =~= old(s)@ + signed_fixed(negative, units as nat, places as nat));
    } else {
        push_fixed(s, units, places);
    }
}

/// Appends text.
pub(crate) fn push_str(s: &mut String, t: &str)
    ensures
        final(s)@ == old(s)@ + t@,
{
    s.append(t);
}

/// The first char position where `s` holds `pat`.
pub(crate) fn find_text(s: &str, pat: &str) -> (r: Option<usize>)
    ensures
        match r {
            Some(p) => find_from(s@, pat@, 0) == Some(p as int),
            None => find_from(s@, pat@, 0) is None,
        },
{
    let sc = chars_of(s);
    let pc = chars_of(pat);
    let n = sc.len();
    let m = pc.len();
    if m > n {
        return None;
    }
    let mut i: usize = 0;
    while i <= n - m
        invariant
            sc@ == s@,
            pc@ == pat@,
            n == s@.len(),
            m == pat@.len(),
            m <= n,
            i <= n - m + 1,
            find_from(s@, pat@, 0) == find_from(s@, pat@, i as int),
        decreases n - i,
    {
        let mut j: usize = 0;
        let mut same = true;
        while j < m
            invariant
                sc@ == s@,
                pc@ == pat@,
                n == s@.len(),
                m == pat@.len(),
                i + m <= n,
                j <= m,
                same == forall|x: int| 0 <= x < j ==> s@[i + x] == pat@[x],
            decreases m - j,
        {
            if sc[i + j] != pc[j] {
                same = false;
            }
            j = j + 1;
        }
        if same {
            assert(s@.subrange(i as int, i + m) =~= pat@);
            return Some(i);
        }
        assert(!occurs_at(s@, pat@, i as int)) by {
            if occurs_at(s@, pat@, i as int) {
                assert forall|x: int| 0 <= x < m implies s@[i + x] == pat@[x] by {
                    assert(s@.subrange(i as int, i + m)[x] == s@[i + x]);
                }
            }
        }
        i = i + 1;
    }
    None
}

/// Whether `s` holds `pat` (`str::contains`).
pub(crate) fn contains_text(s: &str, pat: &str) -> (r: bool)
    ensures
        r == contains(s@, pat@),
{
    proof {
        lemma_find_from(s@, pat@, 0);
    }
    match find_text(s, pat) {
        Some(_) => true,
        None => false,
    }
}

/// Whether two texts are equal.
pub(crate) fn text_eq(a: &str, b: &str) -> (r: bool)
    ensures
        r == (a@ == b@),
{
    let n = a.unicode_len();
    let m = b.unicode_len();
    if n != m {
        return false;
    }
    let mut i: usize = 0;
    while i < n
        invariant
            n == a@.len(),
            m == b@.len(),
            n == m,
            i <= n,
            forall|j: int| 0 <= j < i ==> a@[j] == b@[j],
        decreases n - i,
    {
        if a.get_char(i) != b.get_char(i) {
            return false;
        }
        i = i + 1;
    }
    assert(a@ =~= b@);
    true
}

/// The value of a hex digit char, if it is one.
pub(crate) fn hex_value_of(c: char) -> (r: Option<u8>)
    ensures
        r == hex_value(c),
{
    if '0' <= c && c <= '9' {
        Some(((c as u32) - 48) as u8)
    } else if 'A' <= c && c <= 'F' {
        Some(((c as u32) - 55) as u8)
    } else if 'a' <= c && c <= 'f' {
        Some(((c as u32) - 87) as u8)
    } else {
        None
    }
}

/// The UTF-8 width of a char.
pub(crate) fn utf8_width_of(c: char) -> (w: usize)
    ensures
        w == utf8_width(c),
{
    let u = c as u32;
    if u < 0x80 {
        1
    } else if u < 0x800 {
        2
    } else if u < 0x10000 {
        3
    } else {
        4
    }
}

/// A group holds no more chars than the text does.
pub proof fn lemma_chars_in_bytes_bound(s: Seq<char>, n: int)
    ensures
        0 <= chars_in_bytes(s, n) <= s.len(),
    decreases s.len(),
{
    if n > 0 && s.len() > 0 {
        lemma_chars_in_bytes_bound(s.drop_first(), n - utf8_width(s[0]));
    }
}

/// UTF-8 length of the chars from `from` on.
pub(crate) fn utf8_len_from(chars: &Vec<char>, from: usize) -> (r: u128)
    requires
        from <= chars@.len(),
    ensures
        r == utf8_len(chars@.skip(from as int)),
{
    let n = chars.len();
    let mut j = n;
    let mut acc: u128 = 0;
    assert(chars@.subrange(n as int, n as int) =~= Seq::<char>::empty());
    while j > from
        invariant
            n == chars@.len(),
            from <= j <= n,
            acc == utf8_len(chars@.subrange(j as int, n as int)),
            acc <= 4 * (n - j),
        decreases j,
    {
        j = j - 1;
        let w = utf8_width_of(chars[j]);
        assert(chars@.subrange(j as int, n as int).drop_first() =~= chars@.subrange(
            j + 1,
            n as int,
        ));
        acc = acc + w as u128;
    }
    assert(chars@.skip(from as int) =~= chars@.subrange(from as int, n as int));
    acc
}

/// Whether byte offset `bytes` of the chars from `from` on falls between chars.
pub(crate) fn boundary_from(chars: &Vec<char>, from: usize, bytes: i64) -> (r: bool)
    requires
        from <= chars@.len(),
        0 <= bytes <= 4,
    ensures
        r == byte_boundary(chars@.skip(from as int), bytes as int),
{
    let n = chars.len();
    let mut k = from;
    let mut left: i64 = bytes;
    while left > 0 && k < n
        invariant
            n == chars@.len(),
            from <= k <= n,
            -4 <= left <= 4,
            byte_boundary(chars@.skip(from as int), bytes as int) == byte_boundary(
                chars@.skip(k as int),
                left as int,
            ),
        decreases n - k,
    {
        assert(chars@.skip(k as int).drop_first() =~= chars@.skip(k + 1));
        left = left - utf8_width_of(chars[k]) as i64;
        k = k + 1;
    }
    left == 0
}

/// How many chars, from `from` on, make up the next `bytes` bytes.
pub(crate) fn chars_in_bytes_from(chars: &Vec<char>, from: usize, bytes: i64) -> (r: usize)
    requires
        from <= chars@.len(),
        0 <= bytes <= 4,
    ensures
        r == chars_in_bytes(chars@.skip(from as int), bytes as int),
{
    let n = chars.len();
    let mut k = from;
    let mut left: i64 = bytes;
    while left > 0 && k < n
        invariant
            n == chars@.len(),
            from <= k <= n,
            -4 <= left <= 4,
            chars_in_bytes(chars@.skip(from as int), bytes as int) == (k - from)
                + chars_in_bytes(chars@.skip(k as int), left as int),
        decreases n - k,
    {
        assert(chars@.skip(k as int).drop_first() =~= chars@.skip(k + 1));
        left = left - utf8_width_of(chars[k]) as i64;
        k = k + 1;
    }
    k - from
}

/// Where `s` starts once leading white space is skipped, from `from` on.
pub(crate) fn skip_white_start(chars: &Vec<char>, from: usize, to: usize) -> (r: usize)
    requires
        from <= to <= chars@.len(),
    ensures
        from <= r <= to,
        trim_start(chars@.subrange(from as int, to as int)) == chars@.subrange(r as int, to as int),
{
    let mut i = from;
    while i < to && is_space(chars[i])
        invariant
            from <= i <= to <= chars@.len(),
            trim_start(chars@.subrange(from as int, to as int)) == trim_start(
                chars@.subrange(i as int, to as int),
            ),
        decreases to - i,
    {
        assert(chars@.subrange(i as int, to as int).drop_first() =~= chars@.subrange(
            i + 1,
            to as int,
        ));
        i = i + 1;
    }
    i
}

/// Where `s` ends once trailing white space is cut, down to `from`.
pub(crate) fn skip_white_end(chars: &Vec<char>, from: usize, to: usize) -> (r: usize)
    requires
        from <= to <= chars@.len(),
    ensures
        from <= r <= to,
        trim_end(chars@.subrange(from as int, to as int)) == chars@.subrange(from as int, r as int),
{
    let mut j = to;
    while j > from && is_space(chars[j - 1])
        invariant
            from <= j <= to <= chars@.len(),
            trim_end(chars@.subrange(from as int, to as int)) == trim_end(
                chars@.subrange(from as int, j as int),
            ),
        decreases j,
    {
        assert(chars@.subrange(from as int, j as int).drop_last() =~= chars@.subrange(
            from as int,
            j - 1,
        ));
        j = j - 1;
    }
    j
}

/// `char::is_whitespace`.
pub(crate) fn is_space(c: char) -> (r: bool)
    ensures
        r == is_white_space(c),
{
    let u = c as u32;
    (9 <= u && u <= 13) || u == 32 || u == 0x85 || u == 0xA0 || u == 0x1680 || (0x2000 <= u && u
        <= 0x200A) || u == 0x2028 || u == 0x2029 || u == 0x202F || u == 0x205F || u == 0x3000
}

/// `trim_start` then `trim_end` of a middle piece is found by the two scans.
pub proof fn lemma_trim_subrange(s: Seq<char>, a: int, b: int, c: int)
    requires
        0 <= a <= b <= c <= s.len(),
        trim_start(s.subrange(a, c)) == s.subrange(b, c),
    ensures
        trim(s.subrange(a, c)) == trim_end(s.subrange(b, c)),
{
}

} // verus!
