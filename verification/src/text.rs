//! Character-level text helpers shared by the gateway, the OAuth server and the
//! tunnel manager. Every string is modelled by its sequence of `char`s.
use vstd::prelude::*;

verus! {

/* ───────────── std wrappers ───────────── */

/// `String::push`: appends one `char` at the end of the string.
#[verifier::external_body]
pub fn push_char(s: &mut String, c: char)
    ensures
        final(s)@ == old(s)@.push(c),
{
    s.push(c);
}

/// Appends a string slice at the end of `s`.
pub fn push_str(s: &mut String, t: &str)
    ensures
        final(s)@ == old(s)@ + t@,
{
    s.append(t);
}

/// The characters of `s`, in order.
pub fn chars_of(s: &str) -> (r: Vec<char>)
    ensures
        r@ == s@,
{
    let mut out: Vec<char> = Vec::new();
    for c in it: s.chars()
        invariant
            out@ == it.seq().take(it.index() as int),
            it.seq() == s@,
    {
        out.push(c);
    }
    proof {
        assert(out@ =~= s@);
    }
    out
}

/// A `String` holding the characters `cs[from..to]`.
pub fn string_from_chars(cs: &Vec<char>, from: usize, to: usize) -> (r: String)
    requires
        from <= to <= cs@.len(),
    ensures
        r@ == cs@.subrange(from as int, to as int),
{
    let mut out = String::new();
    let mut i = from;
    while i < to
        invariant
            from <= i <= to <= cs@.len(),
            out@ == cs@.subrange(from as int, i as int),
        decreases to - i,
    {
        push_char(&mut out, cs[i]);
        proof {
            assert(cs@.subrange(from as int, i + 1) =~= cs@.subrange(from as int, i as int).push(
                cs@[i as int],
            ));
        }
        i = i + 1;
    }
    out
}

/// A fresh `String` equal to `s`.
pub fn to_owned_string(s: &str) -> (r: String)
    ensures
        r@ == s@,
{
    String::from_str(s)
}

/* ───────────── comparisons ───────────── */

/// `p` is a prefix of `s`.
pub open spec fn has_prefix(s: Seq<char>, p: Seq<char>) -> bool {
    p.len() <= s.len() && s.take(p.len() as int) == p
}

/// `p` is a suffix of `s`.
pub open spec fn has_suffix(s: Seq<char>, p: Seq<char>) -> bool {
    p.len() <= s.len() && s.skip(s.len() - p.len()) == p
}

/// `needle` occurs in `s` starting at index `i`.
pub open spec fn occurs_at(s: Seq<char>, needle: Seq<char>, i: int) -> bool {
    0 <= i && i + needle.len() <= s.len() && s.subrange(i, i + needle.len()) == needle
}

/// `needle` occurs somewhere in `s`.
pub open spec fn contains_seq(s: Seq<char>, needle: Seq<char>) -> bool {
    exists|i: int| occurs_at(s, needle, i)
}

/// Two strings are equal character by character.
pub fn str_eq(a: &str, b: &str) -> (r: bool)
    ensures
        r == (a@ == b@),
{
    let x = to_owned_string(a);
    let y = to_owned_string(b);
    x == y
}

/// Whether `needle` occurs in `s` starting at character index `i`.
pub fn occurs_at_exec(s: &Vec<char>, needle: &Vec<char>, i: usize) -> (r: bool)
    ensures
        r == occurs_at(s@, needle@, i as int),
{
    if i > s.len() || needle.len() > s.len() - i {
        return false;
    }
    let mut k: usize = 0;
    while k < needle.len()
        invariant
            i + needle.len() <= s.len(),
            k <= needle.len(),
            forall|j: int| 0 <= j < k ==> s@[i + j] == needle@[j],
        decreases needle.len() - k,
    {
        if s[i + k] != needle[k] {
            proof {
                assert(s@.subrange(i as int, i + needle@.len())[k as int] != needle@[k as int]);
            }
            return false;
        }
        k = k + 1;
    }
    proof {
        assert(s@.subrange(i as int, i + needle@.len()) =~= needle@);
    }
    true
}

/// `s` starts with `p`.
pub fn starts_with(s: &str, p: &str) -> (r: bool)
    ensures
        r == has_prefix(s@, p@),
{
    let cs = chars_of(s);
    let ps = chars_of(p);
    let r = occurs_at_exec(&cs, &ps, 0);
    proof {
        if r {
            assert(s@.take(p@.len() as int) =~= s@.subrange(0, p@.len() as int));
        } else if has_prefix(s@, p@) {
            assert(s@.take(p@.len() as int) =~= s@.subrange(0, p@.len() as int));
        }
    }
    r
}

/// `s` ends with `p`.
pub fn ends_with(s: &str, p: &str) -> (r: bool)
    ensures
        r == has_suffix(s@, p@),
{
    let cs = chars_of(s);
    let ps = chars_of(p);
    if ps.len() > cs.len() {
        return false;
    }
    let start = cs.len() - ps.len();
    let r = occurs_at_exec(&cs, &ps, start);
    proof {
        assert(s@.skip(start as int) =~= s@.subrange(start as int, start + p@.len()));
    }
    r
}

/// The first index at which `needle` occurs in `s` at or after `from`.
pub open spec fn first_occurrence_from(s: Seq<char>, needle: Seq<char>, from: int, i: int) -> bool {
    &&& from <= i
    &&& occurs_at(s, needle, i)
    &&& forall|j: int| from <= j < i ==> !occurs_at(s, needle, j)
}

/// Finds the first occurrence of `needle` in `s` at or after index `from`.
pub fn find_from(s: &Vec<char>, needle: &Vec<char>, from: usize) -> (r: Option<usize>)
    ensures
        r matches Some(i) ==> first_occurrence_from(s@, needle@, from as int, i as int),
        r is None ==> forall|j: int| from <= j ==> !occurs_at(s@, needle@, j),
{
    let mut i = from;
    loop
        invariant
            from <= i,
            forall|j: int| from <= j < i ==> !occurs_at(s@, needle@, j),
        decreases s.len() + 1 - i,
    {
        if occurs_at_exec(s, needle, i) {
            return Some(i);
        }
        if i >= s.len() {
            return None;
        }
        i = i + 1;
    }
}

/// Whether `needle` occurs anywhere in `s`.
pub fn contains_str(s: &str, needle: &str) -> (r: bool)
    ensures
        r == contains_seq(s@, needle@),
{
    let cs = chars_of(s);
    let ns = chars_of(needle);
    let f = find_from(&cs, &ns, 0);
    f.is_some()
}

/* ───────────── whitespace and trimming ───────────── */

/// The Unicode `White_Space` property, which `char::is_whitespace` and `str::trim` use.
pub open spec fn is_ws(c: char) -> bool {
    let u = c as u32;
    ||| 0x09 <= u <= 0x0D
    ||| u == 0x20
    ||| u == 0x85
    ||| u == 0xA0
    ||| u == 0x1680
    ||| 0x2000 <= u <= 0x200A
    ||| u == 0x2028
    ||| u == 0x2029
    ||| u == 0x202F
    ||| u == 0x205F
    ||| u == 0x3000
}

/// Executable form of [`is_ws`].
pub fn is_ws_exec(c: char) -> (r: bool)
    ensures
        r == is_ws(c),
{
    let u = c as u32;
    (0x09 <= u && u <= 0x0D) || u == 0x20 || u == 0x85 || u == 0xA0 || u == 0x1680 || (0x2000
        <= u && u <= 0x200A) || u == 0x2028 || u == 0x2029 || u == 0x202F || u == 0x205F || u
        == 0x3000
}

/// `s` without leading whitespace.
pub open spec fn trim_start_seq(s: Seq<char>) -> Seq<char>
    decreases s.len(),
{
    if s.len() > 0 && is_ws(s[0]) {
        trim_start_seq(s.drop_first())
    } else {
        s
    }
}

/// `s` without trailing whitespace.
pub open spec fn trim_end_seq(s: Seq<char>) -> Seq<char>
    decreases s.len(),
{
    if s.len() > 0 && is_ws(s.last()) {
        trim_end_seq(s.drop_last())
    } else {
        s
    }
}

/// `s` without leading and trailing whitespace (what `str::trim` returns).
pub open spec fn trim_seq(s: Seq<char>) -> Seq<char> {
    trim_end_seq(trim_start_seq(s))
}

pub proof fn lemma_trim_start_skip(s: Seq<char>, k: int)
    requires
        0 <= k <= s.len(),
        forall|j: int| 0 <= j < k ==> is_ws(#[trigger] s[j]),
        k == s.len() || !is_ws(s[k]),
    ensures
        trim_start_seq(s) == s.skip(k),
    decreases k,
{
    if k == 0 {
        assert(s.skip(0) =~= s);
    } else {
        let t = s.drop_first();
        assert forall|j: int| 0 <= j < k - 1 implies is_ws(#[trigger] t[j]) by {
            assert(t[j] == s[j + 1]);
        }
        lemma_trim_start_skip(t, k - 1);
        assert(t.skip(k - 1) =~= s.skip(k));
    }
}

pub proof fn lemma_trim_end_take(s: Seq<char>, k: int)
    requires
        0 <= k <= s.len(),
        forall|j: int| k <= j < s.len() ==> is_ws(#[trigger] s[j]),
        k == 0 || !is_ws(s[k - 1]),
    ensures
        trim_end_seq(s) == s.take(k),
    decreases s.len() - k,
{
    if k == s.len() {
        assert(s.take(k) =~= s);
    } else {
        let t = s.drop_last();
        assert forall|j: int| k <= j < t.len() implies is_ws(#[trigger] t[j]) by {
            assert(t[j] == s[j]);
        }
        lemma_trim_end_take(t, k);
        assert(t.take(k) =~= s.take(k));
    }
}

/// Bounds `(lo, hi)` such that `trim_seq(cs) == cs[lo..hi]`.
pub fn trim_bounds(cs: &Vec<char>) -> (r: (usize, usize))
    ensures
        r.0 <= r.1 <= cs@.len(),
        trim_seq(cs@) == cs@.subrange(r.0 as int, r.1 as int),
{
    let mut lo: usize = 0;
    while lo < cs.len() && is_ws_exec(cs[lo])
        invariant
            lo <= cs@.len(),
            forall|j: int| 0 <= j < lo ==> is_ws(#[trigger] cs@[j]),
        decreases cs.len() - lo,
    {
        lo = lo + 1;
    }
    proof {
        lemma_trim_start_skip(cs@, lo as int);
    }
    let ghost t = cs@.skip(lo as int);
    let mut hi: usize = cs.len();
    while hi > lo && is_ws_exec(cs[hi - 1])
        invariant
            lo <= hi <= cs@.len(),
            t == cs@.skip(lo as int),
            forall|j: int| hi <= j < cs@.len() ==> is_ws(#[trigger] cs@[j]),
        decreases hi,
    {
        hi = hi - 1;
    }
    proof {
        assert forall|j: int| hi - lo <= j < t.len() implies is_ws(#[trigger] t[j]) by {
            assert(t[j] == cs@[j + lo]);
        }
        if hi > lo {
            assert(t[hi - lo - 1] == cs@[hi - 1]);
        }
        lemma_trim_end_take(t, hi - lo);
        assert(t.take(hi - lo) =~= cs@.subrange(lo as int, hi as int));
    }
    (lo, hi)
}

/// `s` without leading and trailing whitespace.
pub fn trim(s: &str) -> (r: String)
    ensures
        r@ == trim_seq(s@),
{
    let cs = chars_of(s);
    let (lo, hi) = trim_bounds(&cs);
    string_from_chars(&cs, lo, hi)
}

/* ───────────── number formatting ───────────── */

/// The decimal digit for `d < 10`.
pub open spec fn digit_char(d: nat) -> char {
    (d + 48) as char
}

/// The decimal representation of `n`, without leading zeros.
pub open spec fn decimal(n: nat) -> Seq<char>
    decreases n,
{
    if n < 10 {
        seq![digit_char(n)]
    } else {
        decimal(n / 10).push(digit_char(n % 10))
    }
}

fn digit_exec(d: u64) -> (c: char)
    requires
        d < 10,
    ensures
        c == digit_char(d as nat),
{
    let b: u8 = (d as u8) + 48;
    b as char
}

/// Appends the decimal representation of `n` to `out`.
pub fn push_decimal(out: &mut String, n: u64)
    ensures
        final(out)@ == old(out)@ + decimal(n as nat),
    decreases n,
{
    if n >= 10 {
        push_decimal(out, n / 10);
    }
    push_char(out, digit_exec(n % 10));
    proof {
        if n >= 10 {
            assert(decimal(n as nat) == decimal((n / 10) as nat).push(digit_char((n % 10) as nat)));
        }
    }
}

/// `n` in two digits, with a leading zero below 10 (as `{:02}` prints it).
pub open spec fn two_digits(n: nat) -> Seq<char> {
    if n < 10 {
        seq!['0', digit_char(n)]
    } else {
        decimal(n)
    }
}

/// Appends `n` in at least two digits.
pub fn push_two_digits(out: &mut String, n: u64)
    ensures
        final(out)@ == old(out)@ + two_digits(n as nat),
{
    if n < 10 {
        push_char(out, '0');
    }
    push_decimal(out, n);
    proof {
        if n < 10 {
            assert(decimal(n as nat) == seq![digit_char(n as nat)]);
        }
    }
}

/// The lowercase hexadecimal digit for `v < 16`.
pub open spec fn hex_lower_digit(v: nat) -> char {
    if v < 10 {
        (v + 48) as char
    } else {
        (v + 87) as char
    }
}

/// The uppercase hexadecimal digit for `v < 16`.
pub open spec fn hex_upper_digit(v: nat) -> char {
    if v < 10 {
        (v + 48) as char
    } else {
        (v + 55) as char
    }
}

/// Two lowercase hex digits per byte (as `format!("{:02x}", b)` for each byte).
pub open spec fn hex_lower(bytes: Seq<u8>) -> Seq<char>
    decreases bytes.len(),
{
    if bytes.len() == 0 {
        Seq::empty()
    } else {
        let b = bytes.last();
        hex_lower(bytes.drop_last()).push(hex_lower_digit((b / 16) as nat)).push(
            hex_lower_digit((b % 16) as nat),
        )
    }
}

fn hex_lower_digit_exec(v: u8) -> (c: char)
    requires
        v < 16,
    ensures
        c == hex_lower_digit(v as nat),
{
    if v < 10 {
        (v + 48) as char
    } else {
        (v + 87) as char
    }
}

/// Uppercase hexadecimal digit for `v < 16`.
pub fn hex_upper_digit_exec(v: u8) -> (c: char)
    requires
        v < 16,
    ensures
        c == hex_upper_digit(v as nat),
{
    if v < 10 {
        (v + 48) as char
    } else {
        (v + 55) as char
    }
}

/// Appends the lowercase hex encoding of `bytes`.
pub fn push_hex_lower(out: &mut String, bytes: &[u8])
    ensures
        final(out)@ == old(out)@ + hex_lower(bytes@),
{
    let ghost start = out@;
    let mut i: usize = 0;
    while i < bytes.len()
        invariant
            i <= bytes@.len(),
            out@ == start + hex_lower(bytes@.take(i as int)),
        decreases bytes.len() - i,
    {
        let b = bytes[i];
        push_char(out, hex_lower_digit_exec(b / 16));
        push_char(out, hex_lower_digit_exec(b % 16));
        proof {
            let t = bytes@.take(i + 1);
            assert(t.drop_last() =~= bytes@.take(i as int));
            assert(t.last() == b);
        }
        i = i + 1;
    }
    proof {
        assert(bytes@.take(bytes@.len() as int) =~= bytes@);
    }
}

/// Hex encoding has two characters per byte.
pub proof fn lemma_hex_lower_len(bytes: Seq<u8>)
    ensures
        hex_lower(bytes).len() == 2 * bytes.len(),
    decreases bytes.len(),
{
    if bytes.len() > 0 {
        lemma_hex_lower_len(bytes.drop_last());
    }
}

/// Every character of a hex encoding is a lowercase hex digit.
pub proof fn lemma_hex_lower_digits(bytes: Seq<u8>)
    ensures
        forall|i: int|
            0 <= i < hex_lower(bytes).len() ==> is_lower_hex_char(#[trigger] hex_lower(bytes)[i]),
    decreases bytes.len(),
{
    if bytes.len() > 0 {
        let prev = hex_lower(bytes.drop_last());
        lemma_hex_lower_digits(bytes.drop_last());
        let b = bytes.last();
        let h = hex_lower_digit((b / 16) as nat);
        let l = hex_lower_digit((b % 16) as nat);
        assert(is_lower_hex_char(h));
        assert(is_lower_hex_char(l));
        assert(hex_lower(bytes) == prev.push(h).push(l));
        assert forall|i: int|
            0 <= i < hex_lower(bytes).len() implies is_lower_hex_char(
            #[trigger] hex_lower(bytes)[i],
        ) by {
            if i < prev.len() {
                assert(hex_lower(bytes)[i] == prev[i]);
            }
        }
    }
}

/// `c` is one of `0-9a-f`.
pub open spec fn is_lower_hex_char(c: char) -> bool {
    ('0' as u32 <= c as u32 <= '9' as u32) || ('a' as u32 <= c as u32 <= 'f' as u32)
}

} // verus!

verus! {

/* ───────────── percent-encoding ───────────── */

/// RFC 3986 unreserved bytes: `A-Z a-z 0-9 - _ . ~`.
pub open spec fn is_unreserved(b: u8) -> bool {
    (65 <= b <= 90) || (97 <= b <= 122) || (48 <= b <= 57) || b == 45 || b == 95 || b == 46 || b
        == 126
}

/// Percent-encoding of one byte: itself if unreserved, else `%XX` in uppercase hex.
pub open spec fn percent_byte(b: u8) -> Seq<char> {
    if is_unreserved(b) {
        seq![b as char]
    } else {
        seq!['%', hex_upper_digit((b / 16) as nat), hex_upper_digit((b % 16) as nat)]
    }
}

/// Percent-encoding of a byte sequence, byte by byte.
pub open spec fn percent_encode_bytes(bs: Seq<u8>) -> Seq<char>
    decreases bs.len(),
{
    if bs.len() == 0 {
        Seq::empty()
    } else {
        percent_encode_bytes(bs.drop_last()) + percent_byte(bs.last())
    }
}

/// Percent-encoding of the UTF-8 bytes of a string.
pub open spec fn url_encode(s: Seq<char>) -> Seq<char> {
    percent_encode_bytes(vstd::utf8::encode_utf8(s))
}

/// Percent-encodes every byte of `s` that is not unreserved.
pub fn urlencode(s: &str) -> (r: String)
    ensures
        r@ == url_encode(s@),
{
    let bytes = s.as_bytes();
    let mut out = String::new();
    let mut i: usize = 0;
    while i < bytes.len()
        invariant
            i <= bytes@.len(),
            bytes@ == vstd::utf8::encode_utf8(s@),
            out@ == percent_encode_bytes(bytes@.take(i as int)),
        decreases bytes.len() - i,
    {
        let b = bytes[i];
        if (65 <= b && b <= 90) || (97 <= b && b <= 122) || (48 <= b && b <= 57) || b == 45 || b
            == 95 || b == 46 || b == 126 {
            push_char(&mut out, b as char);
        } else {
            push_char(&mut out, '%');
            push_char(&mut out, hex_upper_digit_exec(b / 16));
            push_char(&mut out, hex_upper_digit_exec(b % 16));
        }
        proof {
            let t = bytes@.take(i + 1);
            assert(t.drop_last() =~= bytes@.take(i as int));
            assert(t.last() == b);
            assert(percent_byte(b) == (if is_unreserved(b) {
                seq![b as char]
            } else {
                seq!['%', hex_upper_digit((b / 16) as nat), hex_upper_digit((b % 16) as nat)]
            }));
        }
        i = i + 1;
    }
    proof {
        assert(bytes@.take(bytes@.len() as int) =~= bytes@);
    }
    out
}

/// Every character of a percent-encoding is unreserved, `%` or an uppercase hex digit,
/// so the encoding never holds `&`, `=`, `?` or `#`.
pub proof fn lemma_url_encode_safe(bs: Seq<u8>)
    ensures
        forall|i: int|
            0 <= i < percent_encode_bytes(bs).len() ==> url_safe_char(
                #[trigger] percent_encode_bytes(bs)[i],
            ),
    decreases bs.len(),
{
    if bs.len() > 0 {
        let prev = percent_encode_bytes(bs.drop_last());
        lemma_url_encode_safe(bs.drop_last());
        let tail = percent_byte(bs.last());
        assert forall|j: int| 0 <= j < tail.len() implies url_safe_char(#[trigger] tail[j]) by {}
        assert forall|i: int|
            0 <= i < percent_encode_bytes(bs).len() implies url_safe_char(
            #[trigger] percent_encode_bytes(bs)[i],
        ) by {
            if i < prev.len() {
                assert(percent_encode_bytes(bs)[i] == prev[i]);
            } else {
                assert(percent_encode_bytes(bs)[i] == tail[i - prev.len()]);
            }
        }
    }
}

/// Characters that can appear in a percent-encoding.
pub open spec fn url_safe_char(c: char) -> bool {
    let u = c as u32;
    (65 <= u <= 90) || (97 <= u <= 122) || (48 <= u <= 57) || u == 45 || u == 95 || u == 46 || u
        == 126 || u == 37
}

} // verus!

verus! {

/* ───────────── splitting ───────────── */

/// The pieces of `s` between occurrences of `sep` (what `str::split(sep)` yields):
/// always at least one piece, empty pieces included.
pub open spec fn split_on(s: Seq<char>, sep: char) -> Seq<Seq<char>>
    decreases s.len(),
{
    if s.len() == 0 {
        seq![Seq::empty()]
    } else {
        let prev = split_on(s.drop_last(), sep);
        if s.last() == sep {
            prev.push(Seq::empty())
        } else {
            prev.update(prev.len() - 1, prev.last().push(s.last()))
        }
    }
}

proof fn lemma_split_on_nonempty(s: Seq<char>, sep: char)
    ensures
        split_on(s, sep).len() >= 1,
    decreases s.len(),
{
    if s.len() > 0 {
        lemma_split_on_nonempty(s.drop_last(), sep);
    }
}

/// Splits `s` at every `sep`.
pub fn split_char(s: &str, sep: char) -> (r: Vec<String>)
    ensures
        r@.len() >= 1,
        crate::oauth::string_views(r@) == split_on(s@, sep),
{
    let cs = chars_of(s);
    let mut done: Vec<String> = Vec::new();
    let mut start: usize = 0;
    let mut i: usize = 0;
    proof {
        assert(cs@.take(0) =~= Seq::<char>::empty());
    }
    while i < cs.len()
        invariant
            start <= i <= cs@.len(),
            cs@ == s@,
            crate::oauth::string_views(done@).push(cs@.subrange(start as int, i as int)) == split_on(
                cs@.take(i as int),
                sep,
            ),
        decreases cs.len() - i,
    {
        let ghost prev = split_on(cs@.take(i as int), sep);
        proof {
            lemma_split_on_nonempty(cs@.take(i as int), sep);
            let t = cs@.take(i + 1);
            assert(t.drop_last() =~= cs@.take(i as int));
            assert(t.last() == cs@[i as int]);
        }
        if cs[i] == sep {
            let ghost old_done = crate::oauth::string_views(done@);
            let piece = string_from_chars(&cs, start, i);
            done.push(piece);
            proof {
                assert(crate::oauth::string_views(done@) =~= old_done.push(
                    cs@.subrange(start as int, i as int),
                ));
                assert(crate::oauth::string_views(done@) =~= prev);
                assert(cs@.subrange(i + 1, i + 1) =~= Seq::<char>::empty());
            }
            start = i + 1;
        } else {
            proof {
                assert(cs@.subrange(start as int, i + 1) =~= cs@.subrange(start as int, i as int).push(
                    cs@[i as int],
                ));
                assert(crate::oauth::string_views(done@).push(cs@.subrange(start as int, i + 1))
                    =~= prev.update(prev.len() - 1, prev.last().push(cs@[i as int])));
            }
        }
        i = i + 1;
    }
    let last = string_from_chars(&cs, start, cs.len());
    done.push(last);
    proof {
        assert(cs@.take(cs@.len() as int) =~= cs@);
        assert(crate::oauth::string_views(done@) =~= split_on(s@, sep));
    }
    done
}


/* ───────────── UTF-8 sizes ───────────── */

/// The number of bytes of a character in UTF-8.
pub open spec fn char_size(c: char) -> nat {
    vstd::utf8::encode_scalar(c as u32).len()
}

/// The longest prefix of `text` whose UTF-8 encoding fits in `budget` bytes:
/// characters are taken from the front while they fit.
pub open spec fn fitting_prefix(text: Seq<char>, budget: int) -> Seq<char>
    decreases text.len(),
{
    if text.len() == 0 || char_size(text[0]) > budget {
        Seq::empty()
    } else {
        seq![text[0]] + fitting_prefix(text.drop_first(), budget - char_size(text[0]))
    }
}

/// The UTF-8 size of a character, from its code point.
pub fn char_size_exec(c: char) -> (r: usize)
    ensures
        r == char_size(c),
        1 <= r <= 4,
{
    proof {
        vstd::utf8::char_is_scalar(c);
    }
    let u = c as u32;
    if u <= 0x7F {
        1
    } else if u <= 0x7FF {
        2
    } else if u <= 0xFFFF {
        3
    } else {
        4
    }
}

/// `fitting_prefix` is a prefix of the text that fits in the budget, and one
/// more character would not fit.
pub proof fn lemma_fitting_prefix(text: Seq<char>, budget: int)
    requires
        budget >= 0,
    ensures
        fitting_prefix(text, budget).len() <= text.len(),
        fitting_prefix(text, budget) == text.take(fitting_prefix(text, budget).len() as int),
        vstd::utf8::encode_utf8(fitting_prefix(text, budget)).len() <= budget,
        fitting_prefix(text, budget).len() < text.len() ==> vstd::utf8::encode_utf8(
            text.take(fitting_prefix(text, budget).len() as int + 1),
        ).len() > budget,
    decreases text.len(),
{
    let fp = fitting_prefix(text, budget);
    if text.len() == 0 {
        assert(text.take(0) =~= Seq::<char>::empty());
    } else if char_size(text[0]) > budget {
        assert(text.take(0) =~= Seq::<char>::empty());
        let one = text.take(1);
        assert(one.drop_first() =~= Seq::<char>::empty());
        assert(vstd::utf8::encode_utf8(one) == vstd::utf8::encode_scalar(text[0] as u32)
            + vstd::utf8::encode_utf8(one.drop_first()));
    } else {
        let rest = text.drop_first();
        let b2 = budget - char_size(text[0]);
        lemma_fitting_prefix(rest, b2);
        let fr = fitting_prefix(rest, b2);
        assert(fp == seq![text[0]] + fr);
        assert(fp.drop_first() =~= fr);
        assert forall|j: int| 0 <= j < fp.len() implies fp[j] == text[j] by {
            if j > 0 {
                assert(fp[j] == fr[j - 1]);
                assert(fr[j - 1] == rest.take(fr.len() as int)[j - 1]);
                assert(rest[j - 1] == text[j]);
            }
        }
        assert(fp =~= text.take(fp.len() as int));
        assert(vstd::utf8::encode_utf8(fp) == vstd::utf8::encode_scalar(text[0] as u32)
            + vstd::utf8::encode_utf8(fr));
        if fp.len() < text.len() {
            let t1 = text.take(fp.len() as int + 1);
            assert(t1.drop_first() =~= rest.take(fr.len() as int + 1));
            assert(vstd::utf8::encode_utf8(t1) == vstd::utf8::encode_scalar(text[0] as u32)
                + vstd::utf8::encode_utf8(t1.drop_first()));
        }
    }
}

/// The number of characters of `cs` in its longest prefix of at most `budget`
/// UTF-8 bytes.
pub fn fitting_prefix_len(cs: &Vec<char>, budget: usize) -> (r: usize)
    ensures
        r <= cs@.len(),
        cs@.take(r as int) == fitting_prefix(cs@, budget as int),
{
    let mut i: usize = 0;
    let mut left: usize = budget;
    proof {
        assert(cs@.take(0) =~= Seq::<char>::empty());
        assert(cs@.skip(0) =~= cs@);
        assert(cs@.take(0) + fitting_prefix(cs@, budget as int) =~= fitting_prefix(cs@, budget as int));
    }
    while i < cs.len()
        invariant
            i <= cs@.len(),
            left <= budget,
            fitting_prefix(cs@, budget as int) == cs@.take(i as int) + fitting_prefix(
                cs@.skip(i as int),
                left as int,
            ),
        decreases cs@.len() - i,
    {
        let n = char_size_exec(cs[i]);
        let ghost rest = cs@.skip(i as int);
        assert(rest[0] == cs@[i as int]);
        if n > left {
            proof {
                assert(fitting_prefix(rest, left as int) =~= Seq::<char>::empty());
                assert(fitting_prefix(cs@, budget as int) =~= cs@.take(i as int));
            }
            return i;
        }
        proof {
            assert(rest.drop_first() =~= cs@.skip(i + 1));
            assert(fitting_prefix(rest, left as int) == seq![cs@[i as int]] + fitting_prefix(
                cs@.skip(i + 1),
                left - n,
            ));
            assert(cs@.take(i + 1) =~= cs@.take(i as int) + seq![cs@[i as int]]);
        }
        left = left - n;
        i = i + 1;
    }
    proof {
        assert(cs@.skip(i as int) =~= Seq::<char>::empty());
        assert(fitting_prefix(cs@.skip(i as int), left as int) =~= Seq::<char>::empty());
        assert(fitting_prefix(cs@, budget as int) =~= cs@.take(i as int));
    }
    i
}

} // verus!
