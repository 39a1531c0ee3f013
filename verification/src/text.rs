//! Character-sequence utilities: substring search, case folding at the
//! standard-library boundary, and decimal rendering of counters.

use vstd::prelude::*;

verus! {

/// The needle occurs in the haystack starting at position `pos`.
pub open spec fn matches_at(needle: Seq<char>, hay: Seq<char>, pos: int) -> bool {
    &&& 0 <= pos
    &&& pos + needle.len() <= hay.len()
    &&& forall|i: int| 0 <= i < needle.len() ==> hay[pos + i] == needle[i]
}

/// The needle occurs somewhere in the haystack.
pub open spec fn is_substring(needle: Seq<char>, hay: Seq<char>) -> bool {
    exists|pos: int| matches_at(needle, hay, pos)
}

/// `p` is a prefix of `s`.
pub open spec fn is_prefix(p: Seq<char>, s: Seq<char>) -> bool {
    matches_at(p, s, 0)
}

/// `p` is a suffix of `s`.
pub open spec fn is_suffix(p: Seq<char>, s: Seq<char>) -> bool {
    p.len() <= s.len() && matches_at(p, s, s.len() - p.len())
}

/// A needle longer than the haystack never occurs in it.
pub proof fn lemma_substring_too_long(needle: Seq<char>, hay: Seq<char>)
    requires
        needle.len() > hay.len(),
    ensures
        !is_substring(needle, hay),
{
}

/// If some character of the needle occurs nowhere in the haystack, the
/// needle does not occur in the haystack.
pub proof fn lemma_no_match_by_char(needle: Seq<char>, hay: Seq<char>, j: int)
    requires
        0 <= j < needle.len(),
        forall|i: int| 0 <= i < hay.len() ==> hay[i] != needle[j],
    ensures
        !is_substring(needle, hay),
{
    assert forall|pos: int| !matches_at(needle, hay, pos) by {
        if 0 <= pos && pos + needle.len() <= hay.len() {
            assert(hay[pos + j] != needle[j]);
        }
    }
}

/// A needle that never contains the character `c` occurs in
/// `x + [c] + y` exactly when it occurs in `x` or in `y`: no
/// occurrence can span the separator.
pub proof fn lemma_substring_split(needle: Seq<char>, x: Seq<char>, c: char, y: Seq<char>)
    requires
        forall|i: int| 0 <= i < needle.len() ==> needle[i] != c,
    ensures
        is_substring(needle, x + seq![c] + y)
            <==> is_substring(needle, x) || is_substring(needle, y),
{
    let hay = x + seq![c] + y;
    if is_substring(needle, hay) {
        let pos = choose|pos: int| matches_at(needle, hay, pos);
        if pos + needle.len() <= x.len() {
            assert(matches_at(needle, x, pos)) by {
                assert forall|i: int| 0 <= i < needle.len() implies x[pos + i] == needle[i] by {
                    assert(hay[pos + i] == needle[i]);
                }
            }
        } else if pos >= x.len() + 1 {
            let q = pos - x.len() - 1;
            assert(matches_at(needle, y, q)) by {
                assert forall|i: int| 0 <= i < needle.len() implies y[q + i] == needle[i] by {
                    assert(hay[pos + i] == y[q + i]);
                }
            }
        } else {
            // the occurrence would cover the separator character
            let i = x.len() - pos;
            assert(0 <= i < needle.len());
            assert(hay[pos + i] == c);
            assert(needle[i] != c);
            assert(false);
        }
    }
    if is_substring(needle, x) {
        let pos = choose|pos: int| matches_at(needle, x, pos);
        assert(matches_at(needle, hay, pos)) by {
            assert forall|i: int| 0 <= i < needle.len() implies hay[pos + i] == needle[i] by {
                assert(x[pos + i] == needle[i]);
            }
        }
    }
    if is_substring(needle, y) {
        let pos = choose|pos: int| matches_at(needle, y, pos);
        let q = pos + x.len() + 1;
        assert(matches_at(needle, hay, q)) by {
            assert forall|i: int| 0 <= i < needle.len() implies hay[q + i] == needle[i] by {
                assert(hay[q + i] == y[pos + i]);
            }
        }
    }
}

/// Whether the needle occurs at position `pos` of the haystack,
/// decided character by character.
fn matches_at_exec(hay: &str, needle: &str, pos: usize) -> (r: bool)
    requires
        pos + needle@.len() <= hay@.len(),
        hay@.len() <= usize::MAX,
    ensures
        r == matches_at(needle@, hay@, pos as int),
{
    let n: usize = needle.unicode_len();
    let mut i: usize = 0;
    while i < n
        invariant
            n == needle@.len(),
            pos + n <= hay@.len(),
            hay@.len() <= usize::MAX,
            0 <= i <= n,
            forall|k: int| 0 <= k < i ==> hay@[pos + k] == needle@[k],
        decreases n - i,
    {
        if hay.get_char(pos + i) != needle.get_char(i) {
            return false;
        }
        i = i + 1;
    }
    true
}

/// Substring search: does `needle` occur anywhere in `hay`?
pub fn contains_str(hay: &str, needle: &str) -> (r: bool)
    ensures
        r == is_substring(needle@, hay@),
{
    let h: usize = hay.unicode_len();
    let n: usize = needle.unicode_len();
    if n > h {
        proof {
            lemma_substring_too_long(needle@, hay@);
        }
        return false;
    }
    let mut pos: usize = 0;
    while pos <= h - n
        invariant
            h == hay@.len(),
            n == needle@.len(),
            n <= h,
            0 <= pos <= h - n + 1,
            forall|p: int| 0 <= p < pos ==> !matches_at(needle@, hay@, p),
        decreases h - n - pos + 1,
    {
        if matches_at_exec(hay, needle, pos) {
            return true;
        }
        pos = pos + 1;
    }
    assert forall|p: int| !matches_at(needle@, hay@, p) by {
        if 0 <= p && p + needle@.len() <= hay@.len() {
            assert(p < pos);
        }
    }
    false
}

/// Does `s` start with the prefix `p`?
pub fn starts_with_str(s: &str, p: &str) -> (r: bool)
    ensures
        r == is_prefix(p@, s@),
{
    let sl: usize = s.unicode_len();
    let pl: usize = p.unicode_len();
    if pl > sl {
        return false;
    }
    matches_at_exec(s, p, 0)
}

/// Does `s` end with the suffix `p`?
pub fn ends_with_str(s: &str, p: &str) -> (r: bool)
    ensures
        r == is_suffix(p@, s@),
{
    let sl: usize = s.unicode_len();
    let pl: usize = p.unicode_len();
    if pl > sl {
        return false;
    }
    matches_at_exec(s, p, sl - pl)
}

/// The lowercase form that the standard library's case folding gives to a
/// sequence of characters. Named rather than spelled out: the full Unicode
/// mapping is far too large to state.
pub uninterp spec fn lower_of(s: Seq<char>) -> Seq<char>;

/// A character that Unicode case folding leaves unchanged: an ASCII
/// character other than an uppercase letter.
pub open spec fn is_lower_fixed(c: char) -> bool {
    (c as u32) < 128 && !(65 <= (c as u32) <= 90)
}

/// Relies on str::to_lowercase: the result is a function of the characters
/// alone, and characters without a lowercase mapping (in particular ASCII
/// characters that are not uppercase letters) are returned unchanged.
#[verifier::external_body]
pub fn to_lower(s: &str) -> (r: String)
    ensures
        r@ == lower_of(s@),
        (forall|i: int| 0 <= i < s@.len() ==> is_lower_fixed(s@[i])) ==> r@ == s@,
{
    s.to_lowercase()
}

/// Relies on String::from_iter over a vector of characters: the resulting
/// string holds exactly those characters in order.
#[verifier::external_body]
pub fn string_from_chars(v: &Vec<char>) -> (r: String)
    ensures
        r@ == v@,
{
    v.iter().collect()
}

/// The character for one decimal digit.
pub open spec fn digit_char(d: int) -> char {
    if d == 0 {
        '0'
    } else if d == 1 {
        '1'
    } else if d == 2 {
        '2'
    } else if d == 3 {
        '3'
    } else if d == 4 {
        '4'
    } else if d == 5 {
        '5'
    } else if d == 6 {
        '6'
    } else if d == 7 {
        '7'
    } else if d == 8 {
        '8'
    } else {
        '9'
    }
}

/// A decimal digit character.
pub open spec fn is_dec_digit(c: char) -> bool {
    48 <= (c as u32) <= 57
}

/// The usual decimal rendering of a natural number, most significant
/// digit first, with no leading zeros.
pub open spec fn dec_digits(n: nat) -> Seq<char>
    decreases n,
{
    if n < 10 {
        seq![digit_char(n as int)]
    } else {
        dec_digits(n / 10).push(digit_char((n % 10) as int))
    }
}

/// Every character of a decimal rendering is a digit.
pub proof fn lemma_dec_digits_are_digits(n: nat)
    ensures
        dec_digits(n).len() >= 1,
        forall|i: int| 0 <= i < dec_digits(n).len() ==> is_dec_digit(#[trigger] dec_digits(n)[i]),
    decreases n,
{
    if n >= 10 {
        lemma_dec_digits_are_digits(n / 10);
        assert forall|i: int| 0 <= i < dec_digits(n).len() implies is_dec_digit(
            #[trigger] dec_digits(n)[i],
        ) by {
            if i < dec_digits(n / 10).len() {
                assert(dec_digits(n)[i] == dec_digits(n / 10)[i]);
            }
        }
    }
}

/// `digit_char` maps distinct digits to distinct characters.
proof fn lemma_digit_char_injective(x: int, y: int)
    requires
        0 <= x < 10,
        0 <= y < 10,
        digit_char(x) == digit_char(y),
    ensures
        x == y,
{
}

/// Distinct numbers have distinct decimal renderings.
pub proof fn lemma_dec_digits_injective(a: nat, b: nat)
    requires
        dec_digits(a) == dec_digits(b),
    ensures
        a == b,
    decreases a,
{
    lemma_dec_digits_are_digits(a);
    lemma_dec_digits_are_digits(b);
    if a < 10 && b < 10 {
        assert(dec_digits(a) == seq![digit_char(a as int)]);
        assert(dec_digits(b) == seq![digit_char(b as int)]);
        assert(seq![digit_char(a as int)][0] == digit_char(a as int));
        assert(seq![digit_char(b as int)][0] == digit_char(b as int));
        assert(dec_digits(a)[0] == dec_digits(b)[0]);
        lemma_digit_char_injective(a as int, b as int);
    } else if a < 10 {
        lemma_dec_digits_are_digits(b / 10);
        assert(dec_digits(b).len() >= 2);
    } else if b < 10 {
        lemma_dec_digits_are_digits(a / 10);
        assert(dec_digits(a).len() >= 2);
    } else {
        let sa = dec_digits(a / 10);
        let sb = dec_digits(b / 10);
        let da = digit_char((a % 10) as int);
        let db = digit_char((b % 10) as int);
        assert(dec_digits(a) == sa.push(da));
        assert(dec_digits(b) == sb.push(db));
        assert(sa.len() == sb.len());
        assert forall|i: int| 0 <= i < sa.len() implies sa[i] == sb[i] by {
            assert(sa.push(da)[i] == sa[i]);
            assert(sb.push(db)[i] == sb[i]);
        }
        assert(sa =~= sb);
        lemma_dec_digits_injective(a / 10, b / 10);
        let la = sa.len() as int;
        assert(sa.push(da)[la] == da);
        assert(sb.push(db)[la] == db);
        lemma_digit_char_injective((a % 10) as int, (b % 10) as int);
        assert(a == 10 * (a / 10) + a % 10);
        assert(b == 10 * (b / 10) + b % 10);
    }
}

/// The exec counterpart of `digit_char`.
fn digit_char_exec(d: u64) -> (c: char)
    requires
        d < 10,
    ensures
        c == digit_char(d as int),
{
    match d {
        0 => '0',
        1 => '1',
        2 => '2',
        3 => '3',
        4 => '4',
        5 => '5',
        6 => '6',
        7 => '7',
        8 => '8',
        _ => '9',
    }
}

/// Appends the decimal rendering of `n` to `out`.
fn push_dec_digits(n: u64, out: &mut Vec<char>)
    ensures
        final(out)@ == old(out)@ + dec_digits(n as nat),
    decreases n,
{
    if n >= 10 {
        push_dec_digits(n / 10, out);
    }
    out.push(digit_char_exec(n % 10));
    proof {
        assert(out@ =~= old(out)@ + dec_digits(n as nat));
    }
}

/// The decimal rendering of a counter value as a string.
pub fn dec_string(n: u64) -> (s: String)
    ensures
        s@ == dec_digits(n as nat),
{
    let mut v: Vec<char> = Vec::new();
    push_dec_digits(n, &mut v);
    proof {
        assert(v@ =~= dec_digits(n as nat));
    }
    string_from_chars(&v)
}

/// The shape of a title shortened for display: short titles unchanged;
/// long ones keep their two ends around an ellipsis, the head one
/// character longer when the kept length is odd.
pub open spec fn truncate_middle_spec(s: Seq<char>, max_len: int) -> Seq<char> {
    if s.len() <= max_len {
        s
    } else {
        let keep = if max_len >= 3 {
            max_len - 3
        } else {
            0
        };
        let head = (keep + 1) / 2;
        let tail = keep / 2;
        s.take(head) + seq!['.', '.', '.'] + s.skip(s.len() - tail)
    }
}

/// Shortens a title for display by replacing its middle with an
/// ellipsis.
pub fn truncate_middle(text: &str, max_len: usize) -> (r: String)
    ensures
        r@ == truncate_middle_spec(text@, max_len as int),
{
    let n = text.unicode_len();
    if n <= max_len {
        return String::from_str(text);
    }
    let keep: usize = if max_len >= 3 {
        max_len - 3
    } else {
        0
    };
    let head_len: usize = (keep + 1) / 2;
    let tail_len: usize = keep / 2;
    let dots = "...";
    proof {
        reveal_strlit("...");
        assert(dots@ =~= seq!['.', '.', '.']);
        assert(head_len + tail_len <= max_len);
    }
    let head = text.substring_char(0, head_len);
    let tail = text.substring_char(n - tail_len, n);
    let mut r = String::from_str(head);
    r.append(dots);
    r.append(tail);
    proof {
        assert(head@ =~= text@.take(head_len as int));
        assert(tail@ =~= text@.skip(text@.len() - tail_len as int));
    }
    r
}

/// The index of the first zero byte, or the length when there is none.
pub open spec fn first_nul(s: Seq<u8>) -> nat
    decreases s.len(),
{
    if s.len() == 0 {
        0
    } else if s[0] == 0 {
        0
    } else {
        1 + first_nul(s.drop_first())
    }
}

/// What a zero-terminated byte buffer holds: its bytes up to the first
/// zero.
pub open spec fn nul_prefix(s: Seq<u8>) -> Seq<u8> {
    s.take(first_nul(s) as int)
}

/// `first_nul` finds the first zero byte.
pub proof fn lemma_first_nul(s: Seq<u8>)
    ensures
        first_nul(s) <= s.len(),
        first_nul(s) < s.len() ==> s[first_nul(s) as int] == 0,
        forall|i: int| 0 <= i < first_nul(s) ==> s[i] != 0,
    decreases s.len(),
{
    if s.len() > 0 && s[0] != 0 {
        lemma_first_nul(s.drop_first());
        assert forall|i: int| 0 <= i < first_nul(s) implies s[i] != 0 by {
            if i > 0 {
                assert(s.drop_first()[i - 1] == s[i]);
            }
        }
        if first_nul(s) < s.len() {
            assert(s.drop_first()[first_nul(s.drop_first()) as int] == s[first_nul(s) as int]);
        }
    }
}

/// Extracts the bytes of a zero-terminated buffer up to its first zero.
pub fn c_buffer_prefix(bytes: &Vec<u8>) -> (r: Vec<u8>)
    ensures
        r@ == nul_prefix(bytes@),
{
    let n = bytes.len();
    let mut r: Vec<u8> = Vec::new();
    let mut i: usize = 0;
    while i < n && bytes[i] != 0
        invariant
            n == bytes@.len(),
            0 <= i <= n,
            forall|k: int| 0 <= k < i ==> bytes@[k] != 0,
            r@ == bytes@.take(i as int),
        decreases n - i,
    {
        r.push(bytes[i]);
        proof {
            assert(r@ =~= bytes@.take(i as int + 1));
        }
        i = i + 1;
    }
    proof {
        lemma_first_nul(bytes@);
        let fz = first_nul(bytes@);
        if fz < i {
            assert(bytes@[fz as int] != 0);
        }
        if i < fz {
            assert(bytes@[i as int] != 0);
        }
        assert(i == fz);
    }
    r
}

/// One byte folded to ASCII lowercase.
pub open spec fn ascii_lower_byte(b: u8) -> u8 {
    if 65 <= b <= 90 {
        (b + 32) as u8
    } else {
        b
    }
}

/// A byte string folded to ASCII lowercase.
pub open spec fn ascii_lower_bytes(s: Seq<u8>) -> Seq<u8> {
    Seq::new(s.len(), |i: int| ascii_lower_byte(s[i]))
}

/// Compares two byte strings ignoring ASCII case.
pub fn ascii_eq_ignore_case(a: &Vec<u8>, b: &Vec<u8>) -> (r: bool)
    ensures
        r == (ascii_lower_bytes(a@) == ascii_lower_bytes(b@)),
{
    let n = a.len();
    if b.len() != n {
        proof {
            assert(ascii_lower_bytes(a@).len() != ascii_lower_bytes(b@).len());
        }
        return false;
    }
    let mut i: usize = 0;
    while i < n
        invariant
            n == a@.len(),
            n == b@.len(),
            0 <= i <= n,
            forall|k: int|
                0 <= k < i ==> ascii_lower_bytes(a@)[k] == ascii_lower_bytes(b@)[k],
        decreases n - i,
    {
        let ca = a[i];
        let cb = b[i];
        let fa = if ca >= 65 && ca <= 90 {
            ca + 32
        } else {
            ca
        };
        let fb = if cb >= 65 && cb <= 90 {
            cb + 32
        } else {
            cb
        };
        if fa != fb {
            proof {
                assert(ascii_lower_bytes(a@)[i as int] != ascii_lower_bytes(b@)[i as int]);
            }
            return false;
        }
        i = i + 1;
    }
    proof {
        assert(ascii_lower_bytes(a@) =~= ascii_lower_bytes(b@));
    }
    true
}

} // verus!
