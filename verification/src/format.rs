//! Formatting of trace values: relative timestamps and shortened text.
use vstd::prelude::*;
use crate::text::{
    decimal, pad_zeros, zero_padded, push_char, push_decimal, byte_len, utf8_width,
    char_utf8_width, chars_of, lemma_byte_len_concat, decimal_value, lemma_pad_zeros_value,
    lemma_decimal_value,
};

verus! {

/// A relative timestamp in milliseconds as `HH:MM:SS.mmm` from one hour on,
/// `MM:SS.mmm` from one minute on, and `S.mmms` below.
pub open spec fn relative_timestamp_text(ts_ms: nat) -> Seq<char> {
    let total_secs = ts_ms / 1000;
    let secs = total_secs % 60;
    let mins = (total_secs / 60) % 60;
    let hours = total_secs / 3600;
    let millis = ts_ms % 1000;
    if hours > 0 {
        pad_zeros(decimal(hours), 2) + seq![':'] + pad_zeros(decimal(mins), 2) + seq![':']
            + pad_zeros(decimal(secs), 2) + seq!['.'] + pad_zeros(decimal(millis), 3)
    } else if mins > 0 {
        pad_zeros(decimal(mins), 2) + seq![':'] + pad_zeros(decimal(secs), 2) + seq!['.']
            + pad_zeros(decimal(millis), 3)
    } else {
        decimal(secs) + seq!['.'] + pad_zeros(decimal(millis), 3) + seq!['s']
    }
}

/// The milliseconds that a relative timestamp text stands for, read back from
/// its fields: `S.mmms`, `MM:SS.mmm` (nine characters) or `H:MM:SS.mmm`.
pub open spec fn relative_timestamp_value(t: Seq<char>) -> int {
    let n = t.len() as int;
    if n > 0 && t.last() == 's' {
        decimal_value(t.subrange(0, n - 5)) * 1000 + decimal_value(t.subrange(n - 4, n - 1))
    } else if n == 9 {
        decimal_value(t.subrange(0, 2)) * 60000 + decimal_value(t.subrange(3, 5)) * 1000
            + decimal_value(t.subrange(6, 9))
    } else {
        decimal_value(t.subrange(0, n - 10)) * 3600000 + decimal_value(t.subrange(n - 9, n - 7))
            * 60000 + decimal_value(t.subrange(n - 6, n - 4)) * 1000 + decimal_value(
            t.subrange(n - 3, n),
        )
    }
}

/// Law: a relative timestamp text reads back as the milliseconds it was made of.
pub proof fn lemma_relative_timestamp_read_back(ts: nat)
    ensures
        relative_timestamp_value(relative_timestamp_text(ts)) == ts,
{
    let total_secs = ts / 1000;
    let secs = total_secs % 60;
    let mins = (total_secs / 60) % 60;
    let hours = total_secs / 3600;
    let millis = ts % 1000;
    assert(total_secs == hours * 3600 + mins * 60 + secs) by (nonlinear_arith)
        requires
            secs == total_secs % 60,
            mins == (total_secs / 60) % 60,
            hours == total_secs / 3600,
    ;
    assert(ts == total_secs * 1000 + millis);
    lemma_pad_zeros_value(hours, 2);
    lemma_pad_zeros_value(mins, 2);
    lemma_pad_zeros_value(secs, 2);
    lemma_pad_zeros_value(millis, 3);
    lemma_decimal_value(secs);
    lemma_decimal_value(mins);
    lemma_decimal_value(millis);
    let hh = pad_zeros(decimal(hours), 2);
    let mm = pad_zeros(decimal(mins), 2);
    let ss = pad_zeros(decimal(secs), 2);
    let ms = pad_zeros(decimal(millis), 3);
    assert(ms.len() == 3);
    assert(mm.len() == 2);
    assert(ss.len() == 2);
    assert((ms.last() as u32) != ('s' as u32));
    let t = relative_timestamp_text(ts);
    if hours > 0 {
        let n: int = hh.len() as int + 10;
        assert(t == hh + seq![':'] + mm + seq![':'] + ss + seq!['.'] + ms);
        assert(t.len() == n);
        assert(t.last() == ms.last());
        assert(t.subrange(0, n - 10) =~= hh);
        assert(t.subrange(n - 9, n - 7) =~= mm);
        assert(t.subrange(n - 6, n - 4) =~= ss);
        assert(t.subrange(n - 3, n) =~= ms);
    } else if mins > 0 {
        assert(t == mm + seq![':'] + ss + seq!['.'] + ms);
        assert(t.len() == 9);
        assert(t.last() == ms.last());
        assert(t.subrange(0, 2) =~= mm);
        assert(t.subrange(3, 5) =~= ss);
        assert(t.subrange(6, 9) =~= ms);
    } else {
        let d = decimal(secs);
        let n: int = d.len() as int + 5;
        assert(t == d + seq!['.'] + ms + seq!['s']);
        assert(t.len() == n);
        assert(t.last() == 's');
        assert(t.subrange(0, n - 5) =~= d);
        assert(t.subrange(n - 4, n - 1) =~= ms);
        assert(total_secs == secs);
    }
}

/// Law: different times give different relative timestamp texts.
pub proof fn lemma_relative_timestamp_injective(a: nat, b: nat)
    requires
        relative_timestamp_text(a) == relative_timestamp_text(b),
    ensures
        a == b,
{
    lemma_relative_timestamp_read_back(a);
    lemma_relative_timestamp_read_back(b);
}

/// Formats a relative timestamp given in milliseconds.
pub fn format_relative_timestamp(ts_ms: u64) -> (r: String)
    ensures
        r@ == relative_timestamp_text(ts_ms as nat),
{
    let total_secs = ts_ms / 1000;
    let secs = total_secs % 60;
    let mins = (total_secs / 60) % 60;
    let hours = total_secs / 3600;
    let millis = ts_ms % 1000;
    let mut out = String::new();
    if hours > 0 {
        out.append(zero_padded(hours, 2).as_str());
        push_char(&mut out, ':');
        out.append(zero_padded(mins, 2).as_str());
        push_char(&mut out, ':');
        out.append(zero_padded(secs, 2).as_str());
        push_char(&mut out, '.');
        out.append(zero_padded(millis, 3).as_str());
    } else if mins > 0 {
        out.append(zero_padded(mins, 2).as_str());
        push_char(&mut out, ':');
        out.append(zero_padded(secs, 2).as_str());
        push_char(&mut out, '.');
        out.append(zero_padded(millis, 3).as_str());
    } else {
        push_decimal(&mut out, secs);
        push_char(&mut out, '.');
        out.append(zero_padded(millis, 3).as_str());
        push_char(&mut out, 's');
    }
    assert(out@ =~= relative_timestamp_text(ts_ms as nat));
    out
}

/// The byte position at which text longer than `max_len` bytes is cut:
/// three bytes before `max_len`, leaving room for the ellipsis; at `max_len`
/// itself where there is no room for it.
pub open spec fn cut_position(max_len: nat) -> nat {
    if max_len >= 3 {
        (max_len - 3) as nat
    } else {
        max_len
    }
}

/// What follows the cut: `...` where `max_len` leaves room for it, else nothing.
pub open spec fn ellipsis(max_len: nat) -> Seq<char> {
    if max_len >= 3 {
        seq!['.', '.', '.']
    } else {
        Seq::empty()
    }
}

/// Byte `k` of `s` falls between two characters (or at either end).
pub open spec fn is_char_boundary_at(s: Seq<char>, k: nat) -> bool {
    exists|i: int| 0 <= i <= s.len() && #[trigger] byte_len(s.take(i)) == k
}

/// Text of at most `max_len` bytes is kept; longer text can be shortened only
/// where the cut falls between characters (elsewhere slicing the string panics).
pub open spec fn truncation_ok(s: Seq<char>, max_len: nat) -> bool {
    byte_len(s) <= max_len || is_char_boundary_at(s, cut_position(max_len))
}

/// `s` kept as it is when it has at most `max_len` bytes; otherwise its first
/// `cut_position(max_len)` bytes followed by the [`ellipsis`].
pub open spec fn truncated(s: Seq<char>, max_len: nat, r: Seq<char>) -> bool {
    if byte_len(s) <= max_len {
        r == s
    } else {
        exists|i: int|
            0 <= i <= s.len() && byte_len(s.take(i)) == cut_position(max_len) && r == s.take(i)
                + ellipsis(max_len)
    }
}

proof fn lemma_byte_len_step(s: Seq<char>, i: int)
    requires
        0 <= i < s.len(),
    ensures
        byte_len(s.take(i + 1)) == byte_len(s.take(i)) + utf8_width(s[i]),
        utf8_width(s[i]) >= 1,
{
    assert(s.take(i + 1).drop_last() =~= s.take(i));
}

proof fn lemma_byte_len_strictly_increasing(s: Seq<char>, i: int, j: int)
    requires
        0 <= i < j <= s.len(),
    ensures
        byte_len(s.take(i)) < byte_len(s.take(j)),
    decreases j - i,
{
    lemma_byte_len_step(s, j - 1);
    if i < j - 1 {
        lemma_byte_len_strictly_increasing(s, i, j - 1);
    }
}

/// Law: the prefix that truncation keeps is unique: prefixes of different
/// lengths have different byte lengths.
pub proof fn lemma_truncated_unique(s: Seq<char>, max_len: nat, r1: Seq<char>, r2: Seq<char>)
    requires
        truncated(s, max_len, r1),
        truncated(s, max_len, r2),
    ensures
        r1 == r2,
{
    if byte_len(s) > max_len {
        let i = choose|i: int|
            0 <= i <= s.len() && byte_len(s.take(i)) == cut_position(max_len) && r1 == s.take(i)
                + ellipsis(max_len);
        let j = choose|j: int|
            0 <= j <= s.len() && byte_len(s.take(j)) == cut_position(max_len) && r2 == s.take(j)
                + ellipsis(max_len);
        if i < j {
            lemma_byte_len_strictly_increasing(s, i, j);
        } else if j < i {
            lemma_byte_len_strictly_increasing(s, j, i);
        }
    }
}

/// Scans `chars` until its first `i` characters take at least `k` bytes (or
/// it ends); returns `i` and those bytes.
fn scan_to_bytes(chars: &Vec<char>, k: u128) -> (r: (usize, u128))
    ensures
        r.0 <= chars@.len(),
        r.1 == byte_len(chars@.take(r.0 as int)),
        r.1 < k ==> r.0 == chars@.len(),
        forall|j: int| 0 <= j < r.0 ==> byte_len(chars@.take(j)) < k,
{
    let mut i: usize = 0;
    let mut acc: u128 = 0;
    assert(chars@.take(0) =~= Seq::<char>::empty());
    while i < chars.len() && acc < k
        invariant
            i <= chars@.len(),
            acc == byte_len(chars@.take(i as int)),
            acc <= 4 * i,
            forall|j: int| 0 <= j < i ==> byte_len(chars@.take(j)) < k,
        decreases chars@.len() - i,
    {
        proof {
            lemma_byte_len_step(chars@, i as int);
        }
        acc = acc + char_utf8_width(chars[i]) as u128;
        i = i + 1;
    }
    (i, acc)
}

/// The text that truncation gives (see [`truncated`]).
pub open spec fn truncation(s: Seq<char>, max_len: nat) -> Seq<char> {
    choose|r: Seq<char>| truncated(s, max_len, r)
}

/// Where `r` is a truncation of `s`, it is the truncation.
pub proof fn lemma_truncation_is(s: Seq<char>, max_len: nat, r: Seq<char>)
    requires
        truncated(s, max_len, r),
    ensures
        truncation(s, max_len) == r,
{
    lemma_truncated_unique(s, max_len, truncation(s, max_len), r);
}

/// Law: a truncation is at most `max_len` bytes long.
pub proof fn lemma_truncated_fits(s: Seq<char>, max_len: nat, r: Seq<char>)
    requires
        truncated(s, max_len, r),
    ensures
        byte_len(r) <= max_len,
{
    if byte_len(s) > max_len {
        let i = choose|i: int|
            0 <= i <= s.len() && byte_len(s.take(i)) == cut_position(max_len) && r == s.take(i)
                + ellipsis(max_len);
        lemma_byte_len_concat(s.take(i), ellipsis(max_len));
        let dots = seq!['.', '.', '.'];
        assert(byte_len(dots) == 3) by {
            let one = seq!['.'];
            let two = seq!['.', '.'];
            assert(('.' as u32) == 46u32);
            assert(utf8_width('.') == 1);
            assert(one.drop_last() =~= Seq::<char>::empty());
            assert(byte_len(Seq::<char>::empty()) == 0);
            assert(one.last() == '.' && two.last() == '.' && dots.last() == '.');
            assert(two.drop_last() =~= one);
            assert(dots.drop_last() =~= two);
            assert(byte_len(one) == 1);
            assert(byte_len(two) == 2);
        }
        assert(byte_len(Seq::<char>::empty()) == 0);
    }
}

/// Whether [`truncate`] can shorten `s` to `max_len` bytes without cutting a character.
pub fn can_truncate(s: &str, max_len: usize) -> (r: bool)
    ensures
        r == truncation_ok(s@, max_len as nat),
{
    let chars = chars_of(s);
    let (n, bytes) = scan_to_bytes(&chars, max_len as u128 + 1);
    if n == chars.len() && bytes <= max_len as u128 {
        assert(chars@.take(n as int) =~= s@);
        return true;
    }
    proof {
        if n < chars@.len() {
            lemma_byte_len_strictly_increasing(chars@, n as int, chars@.len() as int);
        }
        assert(chars@.take(chars@.len() as int) =~= s@);
        assert(byte_len(s@) > max_len);
    }
    let k: usize = if max_len >= 3 { max_len - 3 } else { max_len };
    let (i, acc) = scan_to_bytes(&chars, k as u128);
    proof {
        if acc != k {
            assert forall|j: int| 0 <= j <= s@.len() implies #[trigger] byte_len(s@.take(j)) != k by {
                assert(chars@ == s@);
                if j < i {
                } else if j > i {
                    lemma_byte_len_strictly_increasing(chars@, i as int, j);
                }
            }
        } else {
            assert(chars@ == s@);
            assert(byte_len(s@.take(i as int)) == k);
        }
    }
    acc == k as u128
}

/// Shortens text longer than `max_len` bytes to its first `max_len - 3` bytes
/// followed by `...`; where `max_len < 3` leaves no room for the dots, to its
/// first `max_len` bytes.
pub fn truncate(s: &str, max_len: usize) -> (r: String)
    requires
        truncation_ok(s@, max_len as nat),
    ensures
        truncated(s@, max_len as nat, r@),
        r@ == truncation(s@, max_len as nat),
{
    let chars = chars_of(s);
    let (n, bytes) = scan_to_bytes(&chars, max_len as u128 + 1);
    if n == chars.len() && bytes <= max_len as u128 {
        assert(chars@.take(n as int) =~= s@);
        let r = String::from_str(s);
        proof {
            lemma_truncation_is(s@, max_len as nat, r@);
        }
        return r;
    }
    proof {
        if n < chars@.len() {
            lemma_byte_len_strictly_increasing(chars@, n as int, chars@.len() as int);
        }
        assert(chars@.take(chars@.len() as int) =~= s@);
        assert(byte_len(s@) > max_len);
    }
    let k: usize = if max_len >= 3 { max_len - 3 } else { max_len };
    let (i, acc) = scan_to_bytes(&chars, k as u128);
    proof {
        let j = choose|j: int| 0 <= j <= s@.len() && #[trigger] byte_len(s@.take(j)) == k;
        assert(chars@ == s@);
        if j < i {
        } else if j > i {
            lemma_byte_len_strictly_increasing(chars@, i as int, j);
        }
    }
    let mut out = String::new();
    let mut m: usize = 0;
    while m < i
        invariant
            i <= chars@.len(),
            m <= i,
            out@ == chars@.take(m as int),
        decreases i - m,
    {
        push_char(&mut out, chars[m]);
        m = m + 1;
        assert(out@ =~= chars@.take(m as int));
    }
    if max_len >= 3 {
        out.append("...");
        proof {
            reveal_strlit("...");
        }
    }
    proof {
        assert(out@ =~= s@.take(i as int) + ellipsis(max_len as nat));
        lemma_truncation_is(s@, max_len as nat, out@);
    }
    out
}

} // verus!
