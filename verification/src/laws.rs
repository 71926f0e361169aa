//! Properties of the library as a whole, proved over the specifications that
//! the functions' contracts use.
use vstd::prelude::*;

use crate::dtc::{
    dtc_code, dtc_description, dtc_hex_part, dtc_text, has_mode_prefix, hex_pair_value,
    prepend_codes, scan_groups, scan_line, scan_lines, DtcScan,
};
use crate::cli::{accumulate, digit_value, pid_arg_value};
use crate::elm327::{
    at_reply_fault, first_error_line, first_obd_fault, obd_line_fault, obd_reply_fault,
};
use crate::error::Fault;
use crate::obd::{
    announced_pid, bit_set, bitmap_pids, byte_pids, hex_bytes_text, hex_digits_of, hex_pairs,
    strip_mode_text,
};
use crate::pid::pid_text;
use crate::transport::{kept_lines, reply_lines, split_lines};
use crate::text::{
    byte_boundary, chars_in_bytes, contains, debug_byte_items, debug_bytes, decimal, digit_char,
    hex_byte, hex_char, hex_value, occurs_at, trim, trim_end, trim_start, utf8_len, utf8_width,
};

verus! {

/// A DTC code is five chars: a system letter P, C, B or U, a digit 0 to 3,
/// and three upper-case hex digits.
pub proof fn law_dtc_code_shape(high: u8, low: u8)
    ensures
        dtc_code(high, low).len() == 5,
        dtc_code(high, low)[0] == 'P' || dtc_code(high, low)[0] == 'C' || dtc_code(high, low)[0]
            == 'B' || dtc_code(high, low)[0] == 'U',
        '0' <= dtc_code(high, low)[1] <= '3',
        forall|k: int| 2 <= k < 5 ==> #[trigger] hex_value(dtc_code(high, low)[k]) is Some,
{
    let c = dtc_code(high, low);
    assert forall|k: int| 2 <= k < 5 implies #[trigger] hex_value(c[k]) is Some by {
        lemma_hex_char_value((high % 16) as int);
        lemma_hex_char_value((low / 16) as int);
        lemma_hex_char_value((low % 16) as int);
    }
}

/// The value of an upper-case hex digit char is the digit.
pub proof fn lemma_hex_char_value(d: int)
    requires
        0 <= d < 16,
    ensures
        hex_value(hex_char(d)) == Some(d as u8),
        (hex_char(d) as u32) < 0x80,
{
}

/// Distinct byte pairs give distinct DTC codes: the code determines the two
/// bytes it was decoded from.
pub proof fn law_dtc_code_injective(h1: u8, l1: u8, h2: u8, l2: u8)
    requires
        dtc_code(h1, l1) == dtc_code(h2, l2),
    ensures
        h1 == h2,
        l1 == l2,
{
    let c1 = dtc_code(h1, l1);
    let c2 = dtc_code(h2, l2);
    assert(c1[0] == c2[0] && c1[1] == c2[1] && c1[2] == c2[2] && c1[3] == c2[3] && c1[4] == c2[4]);
    lemma_hex_char_value((h1 % 16) as int);
    lemma_hex_char_value((h2 % 16) as int);
    lemma_hex_char_value((l1 / 16) as int);
    lemma_hex_char_value((l2 / 16) as int);
    lemma_hex_char_value((l1 % 16) as int);
    lemma_hex_char_value((l2 % 16) as int);
    assert(h1 / 64 == h2 / 64);
    assert((h1 / 16) % 4 == (h2 / 16) % 4);
    assert(h1 % 16 == h2 % 16);
    assert(l1 / 16 == l2 / 16);
    assert(l1 % 16 == l2 % 16);
    assert(h1 == h2) by (bit_vector)
        requires
            h1 / 64 == h2 / 64,
            (h1 / 16) % 4 == (h2 / 16) % 4,
            h1 % 16 == h2 % 16,
    ;
    assert(l1 == l2) by (bit_vector)
        requires
            l1 / 16 == l2 / 16,
            l1 % 16 == l2 % 16,
    ;
}

/// The hex text a device sends for some DTC byte pairs: four upper-case hex
/// digits per pair, high byte first.
pub open spec fn dtc_groups_text(pairs: Seq<(u8, u8)>) -> Seq<char>
    decreases pairs.len(),
{
    if pairs.len() == 0 {
        seq![]
    } else {
        hex_byte(pairs[0].0) + hex_byte(pairs[0].1) + dtc_groups_text(pairs.drop_first())
    }
}

/// The pairs that are not the padding pair `(0, 0)`, in order.
pub open spec fn without_padding(pairs: Seq<(u8, u8)>) -> Seq<(u8, u8)>
    decreases pairs.len(),
{
    if pairs.len() == 0 {
        seq![]
    } else if pairs[0].0 == 0 && pairs[0].1 == 0 {
        without_padding(pairs.drop_first())
    } else {
        seq![pairs[0]] + without_padding(pairs.drop_first())
    }
}

/// The UTF-8 length of joined texts is the sum of their lengths.
pub proof fn lemma_utf8_len_concat(a: Seq<char>, b: Seq<char>)
    ensures
        utf8_len(a + b) == utf8_len(a) + utf8_len(b),
    decreases a.len(),
{
    if a.len() > 0 {
        lemma_utf8_len_concat(a.drop_first(), b);
        assert((a + b).drop_first() =~= a.drop_first() + b);
    }
}

/// Within a run of one-byte chars, every byte offset is a char boundary and
/// counts as many chars as bytes.
pub proof fn lemma_ascii_prefix(s: Seq<char>, k: int)
    requires
        0 <= k <= s.len(),
        forall|i: int| 0 <= i < k ==> utf8_width(#[trigger] s[i]) == 1,
    ensures
        forall|j: int| 0 <= j <= k ==> byte_boundary(s, j) && chars_in_bytes(s, j) == j,
    decreases k,
{
    if k > 0 {
        let t = s.drop_first();
        assert forall|i: int| 0 <= i < k - 1 implies utf8_width(#[trigger] t[i]) == 1 by {
            assert(t[i] == s[i + 1]);
        }
        lemma_ascii_prefix(t, k - 1);
        assert forall|j: int| 0 <= j <= k implies byte_boundary(s, j) && chars_in_bytes(s, j)
            == j by {
            if j > 0 {
                assert(utf8_width(s[0]) == 1);
                assert(byte_boundary(t, j - 1) && chars_in_bytes(t, j - 1) == j - 1);
            }
        }
    }
}

/// The hex digits of a byte read back as the byte.
pub proof fn lemma_hex_byte_pair(b: u8)
    ensures
        hex_pair_value(hex_byte(b)[0], hex_byte(b)[1]) == Some(b),
        utf8_width(hex_byte(b)[0]) == 1,
        utf8_width(hex_byte(b)[1]) == 1,
{
    lemma_hex_char_value((b / 16) as int);
    lemma_hex_char_value((b % 16) as int);
    assert((16 * (b / 16) + b % 16) as u8 == b) by (bit_vector);
}

/// Each pair takes four one-byte chars.
pub proof fn lemma_dtc_groups_text_len(pairs: Seq<(u8, u8)>)
    ensures
        dtc_groups_text(pairs).len() == 4 * pairs.len(),
        utf8_len(dtc_groups_text(pairs)) == 4 * pairs.len(),
    decreases pairs.len(),
{
    if pairs.len() > 0 {
        let g = hex_byte(pairs[0].0) + hex_byte(pairs[0].1);
        lemma_dtc_groups_text_len(pairs.drop_first());
        lemma_hex_byte_pair(pairs[0].0);
        lemma_hex_byte_pair(pairs[0].1);
        lemma_utf8_len_concat(g, dtc_groups_text(pairs.drop_first()));
        reveal_with_fuel(utf8_len, 5);
        assert(g.drop_first().drop_first().drop_first().drop_first() =~= Seq::<char>::empty());
    }
}

/// One group of four hex digits followed by more text.
pub proof fn lemma_scan_group_step(h: u8, l: u8, rest: Seq<char>)
    ensures
        scan_groups(hex_byte(h) + hex_byte(l) + rest) == if h == 0 && l == 0 {
            scan_groups(rest)
        } else {
            prepend_codes(seq![(h, l)], scan_groups(rest))
        },
{
    let g = hex_byte(h) + hex_byte(l);
    let s = g + rest;
    lemma_hex_byte_pair(h);
    lemma_hex_byte_pair(l);
    assert(s[0] == hex_byte(h)[0] && s[1] == hex_byte(h)[1] && s[2] == hex_byte(l)[0] && s[3]
        == hex_byte(l)[1]);
    assert forall|i: int| 0 <= i < 4 implies utf8_width(#[trigger] s[i]) == 1 by {}
    lemma_ascii_prefix(s, 4);
    lemma_utf8_len_concat(g, rest);
    lemma_utf8_len_nonneg(rest);
    assert(g.drop_first().drop_first().drop_first().drop_first() =~= Seq::<char>::empty());
    reveal_with_fuel(utf8_len, 5);
    assert(utf8_len(g) == 4);
    assert(utf8_len(s) >= 4);
    assert(byte_boundary(s, 2) && byte_boundary(s, 4));
    assert(s.len() >= 4);
    assert(hex_pair_value(s[0], s[1]) == Some(h));
    assert(hex_pair_value(s[2], s[3]) == Some(l));
    assert(s.skip(4) =~= rest);
}

/// A UTF-8 length is never negative.
pub proof fn lemma_utf8_len_nonneg(s: Seq<char>)
    ensures
        utf8_len(s) >= 0,
    decreases s.len(),
{
    if s.len() > 0 {
        lemma_utf8_len_nonneg(s.drop_first());
    }
}

/// Scanning the hex text of some DTC byte pairs reads back exactly those
/// pairs, with the padding pairs `0000` dropped.
pub proof fn law_scan_reads_back_pairs(pairs: Seq<(u8, u8)>)
    ensures
        scan_groups(dtc_groups_text(pairs)) == DtcScan::Codes(without_padding(pairs)),
    decreases pairs.len(),
{
    if pairs.len() > 0 {
        let (h, l) = pairs[0];
        let rest = dtc_groups_text(pairs.drop_first());
        law_scan_reads_back_pairs(pairs.drop_first());
        lemma_scan_group_step(h, l, rest);
        assert(dtc_groups_text(pairs) == hex_byte(h) + hex_byte(l) + rest);
        if !(h == 0 && l == 0) {
            assert(seq![(h, l)] + without_padding(pairs.drop_first()) == without_padding(pairs));
        }
    } else {
        assert(utf8_len(dtc_groups_text(pairs)) == 0);
    }
}

/// A response line made of a mode response byte and the hex text of some
/// DTC byte pairs scans to those pairs, padding dropped.
pub proof fn law_line_reads_back_pairs(mode: char, pairs: Seq<(u8, u8)>)
    requires
        mode == '3' || mode == '7' || mode == 'A',
    ensures
        scan_line(seq!['4', mode] + dtc_groups_text(pairs)) == DtcScan::Codes(
            without_padding(pairs),
        ),
{
    let line = seq!['4', mode] + dtc_groups_text(pairs);
    assert(has_mode_prefix(line));
    assert(dtc_hex_part(line) =~= dtc_groups_text(pairs));
    lemma_dtc_groups_text_len(pairs);
    law_scan_reads_back_pairs(pairs);
}

/// A padding group `0000` contributes nothing to a scan.
pub proof fn law_padding_group_skipped(rest: Seq<char>)
    ensures
        scan_groups(seq!['0', '0', '0', '0'] + rest) == scan_groups(rest),
{
    let s = seq!['0', '0', '0', '0'] + rest;
    lemma_ascii_prefix(s, 4);
    lemma_utf8_len_concat(seq!['0', '0', '0', '0'], rest);
    reveal_with_fuel(utf8_len, 5);
    assert(seq!['0', '0', '0', '0'].drop_first().drop_first().drop_first().drop_first()
        =~= Seq::<char>::empty());
    assert(s.skip(4) =~= rest);
    assert(prepend_codes(seq![], scan_groups(rest)) == scan_groups(rest)) by {
        if let DtcScan::Codes(c) = scan_groups(rest) {
            assert(Seq::<(u8, u8)>::empty() + c =~= c);
        }
    }
}

/// The DTCs of several lines are the DTCs of each line in turn; the first
/// failing line decides the outcome.
pub proof fn law_scan_lines_concat(a: Seq<Seq<char>>, b: Seq<Seq<char>>)
    ensures
        scan_lines(a + b) == match scan_lines(a) {
            DtcScan::Codes(x) => prepend_codes(x, scan_lines(b)),
            other => other,
        },
    decreases a.len(),
{
    if a.len() == 0 {
        assert(a + b =~= b);
        if let DtcScan::Codes(c) = scan_lines(b) {
            assert(Seq::<(u8, u8)>::empty() + c =~= c);
        }
    } else {
        law_scan_lines_concat(a.drop_first(), b);
        assert((a + b).drop_first() =~= a.drop_first() + b);
        assert((a + b)[0] == a[0]);
        if let DtcScan::Codes(x) = scan_line(a[0]) {
            if let DtcScan::Codes(y) = scan_lines(a.drop_first()) {
                if let DtcScan::Codes(z) = scan_lines(b) {
                    assert(x + (y + z) =~= (x + y) + z);
                }
            }
        }
    }
}

/// `decode_pid` gives a text for every PID once two data bytes are there:
/// PIDs it does not decode are shown raw rather than refused.
pub proof fn law_decode_pid_defined(pid: u8, data: Seq<u8>)
    requires
        data.len() >= 2,
    ensures
        pid_text(pid, data) is Some,
{
}

/// The upper-case hex text of some bytes, two digits per byte.
pub open spec fn hex_text(bytes: Seq<u8>) -> Seq<char>
    decreases bytes.len(),
{
    if bytes.len() == 0 {
        seq![]
    } else {
        hex_text(bytes.drop_last()) + hex_byte(bytes.last())
    }
}

/// The shape of `hex_text`: two digits per byte, in order.
pub proof fn lemma_hex_text_shape(bytes: Seq<u8>)
    ensures
        hex_text(bytes).len() == 2 * bytes.len(),
        forall|i: int|
            0 <= i < bytes.len() ==> hex_text(bytes)[2 * i] == hex_byte(bytes[i])[0] && hex_text(
                bytes,
            )[2 * i + 1] == hex_byte(bytes[i])[1],
        hex_digits_of(hex_text(bytes)) == hex_text(bytes),
    decreases bytes.len(),
{
    if bytes.len() > 0 {
        let init = bytes.drop_last();
        let x = hex_text(init);
        let b = bytes.last();
        lemma_hex_text_shape(init);
        lemma_hex_byte_pair(b);
        lemma_hex_char_value((b / 16) as int);
        lemma_hex_char_value((b % 16) as int);
        let t = hex_text(bytes);
        assert(t == x + hex_byte(b));
        assert(t.drop_last() =~= x.push(hex_byte(b)[0]));
        assert(t.drop_last().drop_last() =~= x);
        assert(t.last() == hex_byte(b)[1]);
        assert(t.drop_last().last() == hex_byte(b)[0]);
        assert(hex_digits_of(t.drop_last()) == hex_digits_of(x).push(hex_byte(b)[0]));
        assert(hex_digits_of(t) == hex_digits_of(t.drop_last()).push(hex_byte(b)[1]));
        assert(hex_digits_of(t) =~= t);
        assert forall|i: int| 0 <= i < bytes.len() implies t[2 * i] == hex_byte(bytes[i])[0]
            && t[2 * i + 1] == hex_byte(bytes[i])[1] by {
            if i < init.len() {
                assert(init[i] == bytes[i]);
            }
        }
    }
}

/// Reading back the hex text of some bytes gives the bytes.
pub proof fn law_hex_roundtrip(bytes: Seq<u8>)
    ensures
        hex_bytes_text(hex_text(bytes)) == Ok::<Seq<u8>, crate::error::Fault>(bytes),
{
    lemma_hex_text_shape(bytes);
    let t = hex_text(bytes);
    assert forall|i: int| 0 <= i < bytes.len() implies #[trigger] hex_pairs(t)[i] == bytes[i] by {
        lemma_hex_byte_pair(bytes[i]);
        lemma_hex_char_value((bytes[i] / 16) as int);
        lemma_hex_char_value((bytes[i] % 16) as int);
    }
    assert(hex_pairs(t) =~= bytes);
}

/// A line that starts with the expected mode byte loses exactly those two
/// chars.
pub proof fn law_strip_leading_mode(line: Seq<char>, mode: u8)
    requires
        line.len() >= 2,
        line.take(2) == hex_byte(mode),
    ensures
        strip_mode_text(line, mode) == Ok::<Seq<char>, crate::error::Fault>(line.skip(2)),
{
    assert(line.subrange(0, 2) =~= line.take(2));
    assert(occurs_at(line, hex_byte(mode), 0));
}

/// Bit `(p - 1) % 8` of byte `(p - 1) / 8` announces PID `p`.
pub open spec fn announces(bytes: Seq<u8>, p: int) -> bool {
    1 <= p <= 8 * bytes.len() && bit_set(bytes[(p - 1) / 8], (p - 1) % 8)
}

/// The PIDs of one byte of the bitmap.
proof fn lemma_byte_pids(b: u8, idx: int, nbits: int)
    requires
        0 <= idx <= 30,
        0 <= nbits <= 8,
    ensures
        forall|i: int|
            0 <= i < byte_pids(b, idx, nbits).len() ==> idx * 8 + 1 <= #[trigger] byte_pids(
                b,
                idx,
                nbits,
            )[i] <= idx * 8 + nbits && bit_set(b, byte_pids(b, idx, nbits)[i] - idx * 8 - 1),
        forall|i: int, j: int|
            0 <= i < j < byte_pids(b, idx, nbits).len() ==> #[trigger] byte_pids(b, idx, nbits)[i]
                < #[trigger] byte_pids(b, idx, nbits)[j],
        forall|bit: int|
            0 <= bit < nbits && #[trigger] bit_set(b, bit) ==> byte_pids(b, idx, nbits).contains(
                (idx * 8 + bit + 1) as u8,
            ),
    decreases nbits,
{
    if nbits > 0 {
        lemma_byte_pids(b, idx, nbits - 1);
        let prev = byte_pids(b, idx, nbits - 1);
        let r = byte_pids(b, idx, nbits);
        assert(idx % 256 == idx);
        if bit_set(b, nbits - 1) {
            let x = announced_pid(idx, nbits - 1) as u8;
            assert(r == prev + seq![x]);
            assert(x == idx * 8 + nbits);
            assert forall|bit: int| 0 <= bit < nbits && #[trigger] bit_set(b, bit) implies r.contains(
                (idx * 8 + bit + 1) as u8,
            ) by {
                if bit < nbits - 1 {
                    let k = choose|k: int| 0 <= k < prev.len() && prev[k] == (idx * 8 + bit + 1) as u8;
                    assert(r[k] == prev[k]);
                } else {
                    assert(r[prev.len() as int] == x);
                }
            }
        } else {
            assert(r =~= prev);
        }
    }
}

/// The PIDs `supported_pids` lists for a bitmap of up to 31 bytes (the
/// standard reply has four) are in increasing order, and they are exactly
/// the PIDs whose bits are set.
pub proof fn law_supported_pids_are_announced(bytes: Seq<u8>)
    requires
        bytes.len() <= 31,
    ensures
        forall|i: int, j: int|
            0 <= i < j < bitmap_pids(bytes).len() ==> #[trigger] bitmap_pids(bytes)[i]
                < #[trigger] bitmap_pids(bytes)[j],
        forall|p: int|
            0 <= p <= 255 ==> (bitmap_pids(bytes).contains(p as u8) <==> announces(bytes, p)),
    decreases bytes.len(),
{
    lemma_bitmap_pids(bytes);
    let r = bitmap_pids(bytes);
    assert forall|p: int| 0 <= p <= 255 implies (r.contains(p as u8) <==> announces(bytes, p)) by {
        if r.contains(p as u8) {
            let k = choose|k: int| 0 <= k < r.len() && r[k] == p as u8;
            assert(announces(bytes, r[k] as int));
        }
    }
}

/// The facts behind `law_supported_pids_are_announced`.
proof fn lemma_bitmap_pids(bytes: Seq<u8>)
    requires
        bytes.len() <= 31,
    ensures
        forall|i: int|
            0 <= i < bitmap_pids(bytes).len() ==> announces(bytes, #[trigger] bitmap_pids(bytes)[i] as int),
        forall|i: int, j: int|
            0 <= i < j < bitmap_pids(bytes).len() ==> #[trigger] bitmap_pids(bytes)[i]
                < #[trigger] bitmap_pids(bytes)[j],
        forall|p: int| #[trigger] announces(bytes, p) ==> bitmap_pids(bytes).contains(p as u8),
    decreases bytes.len(),
{
    if bytes.len() > 0 {
        let init = bytes.drop_last();
        let idx = bytes.len() - 1;
        let b = bytes.last();
        lemma_bitmap_pids(init);
        lemma_byte_pids(b, idx, 8);
        let prev = bitmap_pids(init);
        let tail = byte_pids(b, idx, 8);
        let r = bitmap_pids(bytes);
        assert(r == prev + tail);
        assert forall|i: int| 0 <= i < r.len() implies announces(bytes, #[trigger] r[i] as int) by {
            if i < prev.len() {
                assert(r[i] == prev[i]);
                assert(announces(init, prev[i] as int));
                assert(init[(prev[i] - 1) / 8] == bytes[(prev[i] - 1) / 8]);
            } else {
                assert(r[i] == tail[i - prev.len()]);
                assert((r[i] - 1) / 8 == idx);
            }
        }
        assert forall|i: int, j: int| 0 <= i < j < r.len() implies #[trigger] r[i] < #[trigger] r[j] by {
            if j < prev.len() {
                assert(r[i] == prev[i] && r[j] == prev[j]);
            } else if i >= prev.len() {
                assert(r[i] == tail[i - prev.len()] && r[j] == tail[j - prev.len()]);
            } else {
                assert(r[i] == prev[i] && r[j] == tail[j - prev.len()]);
                assert(announces(init, prev[i] as int));
            }
        }
        assert forall|p: int| #[trigger] announces(bytes, p) implies r.contains(p as u8) by {
            if p <= 8 * idx {
                assert(init[(p - 1) / 8] == bytes[(p - 1) / 8]);
                assert(announces(init, p));
                let k = choose|k: int| 0 <= k < prev.len() && prev[k] == p as u8;
                assert(r[k] == prev[k]);
            } else {
                let bit = (p - 1) % 8;
                assert((p - 1) / 8 == idx);
                assert(bit_set(b, bit));
                assert(tail.contains((idx * 8 + bit + 1) as u8));
                let k = choose|k: int| 0 <= k < tail.len() && tail[k] == (idx * 8 + bit + 1) as u8;
                assert(r[prev.len() + k] == tail[k]);
            }
        }
    }
}

/// Every line kept from a reply is non-empty.
pub proof fn law_reply_lines_nonempty(bytes: Seq<u8>)
    ensures
        forall|i: int|
            0 <= i < reply_lines(bytes).len() ==> #[trigger] reply_lines(bytes)[i].len() > 0,
{
    lemma_kept_lines_nonempty(split_lines(crate::transport::lossy_text(bytes)));
}

proof fn lemma_kept_lines_nonempty(pieces: Seq<Seq<char>>)
    ensures
        forall|i: int| 0 <= i < kept_lines(pieces).len() ==> #[trigger] kept_lines(pieces)[i].len() > 0,
    decreases pieces.len(),
{
    if pieces.len() > 0 {
        lemma_kept_lines_nonempty(pieces.drop_last());
        let prev = kept_lines(pieces.drop_last());
        let r = kept_lines(pieces);
        assert forall|i: int| 0 <= i < r.len() implies #[trigger] r[i].len() > 0 by {
            if i < prev.len() {
                assert(r[i] == prev[i]);
            }
        }
    }
}

/// An OBD reply that passes the check has at least one line, and none of its
/// lines is a "no data" or an error line.
pub proof fn law_checked_obd_reply_clean(lines: Seq<Seq<char>>)
    requires
        obd_reply_fault(lines) is None,
    ensures
        lines.len() > 0,
        forall|i: int| 0 <= i < lines.len() ==> #[trigger] obd_line_fault(lines[i]) is None,
{
    lemma_first_obd_fault_none(lines);
}

proof fn lemma_first_obd_fault_none(lines: Seq<Seq<char>>)
    requires
        first_obd_fault(lines) is None,
    ensures
        forall|i: int| 0 <= i < lines.len() ==> #[trigger] obd_line_fault(lines[i]) is None,
    decreases lines.len(),
{
    if lines.len() > 0 {
        lemma_first_obd_fault_none(lines.drop_first());
        assert forall|i: int| 0 <= i < lines.len() implies #[trigger] obd_line_fault(lines[i]) is None by {
            if i > 0 {
                assert(lines[i] == lines.drop_first()[i - 1]);
            }
        }
    }
}

/// A decimal number of a PID reads back as that PID.
pub proof fn law_pid_arg_decimal(n: u8)
    ensures
        pid_arg_value(decimal(n as nat)) == Ok::<u8, crate::cli::IntFault>(n),
{
    reveal_with_fuel(decimal, 3);
    let d = decimal(n as nat);
    if n < 10 {
        assert(d == seq![digit_char(n as int)]);
    } else if n < 100 {
        assert(d == seq![digit_char((n / 10) as int), digit_char((n % 10) as int)]);
    } else {
        assert(d == seq![digit_char((n / 100) as int), digit_char(((n / 10) % 10) as int), digit_char((n % 10) as int)]);
    }
    assert(trim_start(d) == d);
    assert(trim_end(d) == d);
    assert(trim(d) == d);
    reveal_with_fuel(accumulate, 4);
    if n < 10 {
        assert(d.drop_first() =~= Seq::<char>::empty());
    } else if n < 100 {
        assert(d.drop_first() =~= seq![digit_char((n % 10) as int)]);
        assert(d.drop_first().drop_first() =~= Seq::<char>::empty());
        assert((n / 10) * 10 + n % 10 == n);
    } else {
        assert(d.drop_first() =~= seq![digit_char(((n / 10) % 10) as int), digit_char((n % 10) as int)]);
        assert(d.drop_first().drop_first() =~= seq![digit_char((n % 10) as int)]);
        assert(d.drop_first().drop_first().drop_first() =~= Seq::<char>::empty());
        assert((n / 100) * 10 + (n / 10) % 10 == n / 10);
        assert((n / 10) * 10 + n % 10 == n);
    }
}

/// `0x` and the two hex digits of a PID read back as that PID.
pub proof fn law_pid_arg_hex(n: u8)
    ensures
        pid_arg_value(seq!['0', 'x'] + hex_byte(n)) == Ok::<u8, crate::cli::IntFault>(n),
{
    let s = seq!['0', 'x'] + hex_byte(n);
    lemma_hex_char_value((n / 16) as int);
    lemma_hex_char_value((n % 16) as int);
    assert(trim_start(s) == s);
    assert(trim_end(s) == s);
    assert(s.skip(2) =~= hex_byte(n));
    let h = hex_byte(n);
    reveal_with_fuel(accumulate, 3);
    assert(h.drop_first() =~= seq![hex_char((n % 16) as int)]);
    assert(h.drop_first().drop_first() =~= Seq::<char>::empty());
    assert((n / 16) * 16 + n % 16 == n);
}

/// `utf8_len`, the byte length the DTC scan goes by, agrees with the length of vstd's UTF-8 encoding of the chars.
pub proof fn law_utf8_len_is_encoded_len(s: Seq<char>)
    ensures
        utf8_len(s) == vstd::utf8::encode_utf8(s).len(),
    decreases s.len(),
{
    if s.len() > 0 {
        law_utf8_len_is_encoded_len(s.drop_first());
        vstd::utf8::char_is_scalar(s[0]);
    }
}

/// `byte_boundary`, on which the DTC scan decides where slicing would panic,
/// agrees with vstd's char boundary on the UTF-8 encoding of the chars.
pub proof fn law_byte_boundary_is_char_boundary(s: Seq<char>, n: int)
    ensures
        byte_boundary(s, n) == vstd::utf8::is_char_boundary(vstd::utf8::encode_utf8(s), n),
    decreases s.len(),
{
    let bytes = vstd::utf8::encode_utf8(s);
    vstd::utf8::encode_utf8_valid_utf8(s);
    if n > 0 && s.len() > 0 {
        vstd::utf8::encode_utf8_first_scalar(s);
        vstd::utf8::char_is_scalar(s[0]);
        vstd::utf8::encode_utf8_valid_utf8(s.drop_first());
        assert(vstd::utf8::pop_first_scalar(bytes) =~= vstd::utf8::encode_utf8(s.drop_first()));
        law_byte_boundary_is_char_boundary(s.drop_first(), n - utf8_width(s[0]));
    }
}

/// The four digits of a table code read as a number; distinct codes of the
/// table have distinct numbers, which is how they are told apart below.
spec fn table_code_number(c: Seq<char>) -> int {
    1000 * ((c[1] as int) - 48) + 100 * ((c[2] as int) - 48) + 10 * ((c[3] as int) - 48) + ((
    c[4] as int) - 48)
}

/// The description table from P0100 to P0121: each of these codes has exactly
/// the description written beside it.
pub proof fn law_dtc_descriptions_p0100_to_p0121()
    ensures
        dtc_description("P0100"@) == Some("Mass Air Flow sensor – circuit malfunction"@),
        dtc_description("P0101"@) == Some("Mass Air Flow sensor – range/performance"@),
        dtc_description("P0102"@) == Some("Mass Air Flow sensor – low input"@),
        dtc_description("P0103"@) == Some("Mass Air Flow sensor – high input"@),
        dtc_description("P0105"@) == Some("MAP sensor – circuit malfunction"@),
        dtc_description("P0106"@) == Some("MAP sensor – range/performance"@),
        dtc_description("P0107"@) == Some("MAP sensor – low input"@),
        dtc_description("P0108"@) == Some("MAP sensor – high input"@),
        dtc_description("P0110"@) == Some("Intake Air Temperature sensor – circuit malfunction"@),
        dtc_description("P0112"@) == Some("Intake Air Temperature sensor – low input"@),
        dtc_description("P0113"@) == Some("Intake Air Temperature sensor – high input"@),
        dtc_description("P0115"@) == Some("Engine Coolant Temperature sensor – circuit malfunction"@),
        dtc_description("P0116"@) == Some("Engine Coolant Temperature sensor – range/performance"@),
        dtc_description("P0117"@) == Some("Engine Coolant Temperature sensor – low input"@),
        dtc_description("P0118"@) == Some("Engine Coolant Temperature sensor – high input"@),
        dtc_description("P0120"@) == Some("Throttle position sensor A – circuit malfunction"@),
        dtc_description("P0121"@) == Some("Throttle position sensor A – range/performance"@),
{
    reveal_strlit("P0100");
    assert(table_code_number("P0100"@) == 100);
    reveal_strlit("P0101");
    assert(table_code_number("P0101"@) == 101);
    reveal_strlit("P0102");
    assert(table_code_number("P0102"@) == 102);
    reveal_strlit("P0103");
    assert(table_code_number("P0103"@) == 103);
    reveal_strlit("P0105");
    assert(table_code_number("P0105"@) == 105);
    reveal_strlit("P0106");
    assert(table_code_number("P0106"@) == 106);
    reveal_strlit("P0107");
    assert(table_code_number("P0107"@) == 107);
    reveal_strlit("P0108");
    assert(table_code_number("P0108"@) == 108);
    reveal_strlit("P0110");
    assert(table_code_number("P0110"@) == 110);
    reveal_strlit("P0112");
    assert(table_code_number("P0112"@) == 112);
    reveal_strlit("P0113");
    assert(table_code_number("P0113"@) == 113);
    reveal_strlit("P0115");
    assert(table_code_number("P0115"@) == 115);
    reveal_strlit("P0116");
    assert(table_code_number("P0116"@) == 116);
    reveal_strlit("P0117");
    assert(table_code_number("P0117"@) == 117);
    reveal_strlit("P0118");
    assert(table_code_number("P0118"@) == 118);
    reveal_strlit("P0120");
    assert(table_code_number("P0120"@) == 120);
    reveal_strlit("P0121");
    assert(table_code_number("P0121"@) == 121);
}

/// The description table from P0122 to P0301: each of these codes has exactly
/// the description written beside it.
pub proof fn law_dtc_descriptions_p0122_to_p0301()
    ensures
        dtc_description("P0122"@) == Some("Throttle position sensor A – low input"@),
        dtc_description("P0123"@) == Some("Throttle position sensor A – high input"@),
        dtc_description("P0130"@) == Some("O2 sensor B1S1 – circuit malfunction"@),
        dtc_description("P0131"@) == Some("O2 sensor B1S1 – low voltage"@),
        dtc_description("P0132"@) == Some("O2 sensor B1S1 – high voltage"@),
        dtc_description("P0133"@) == Some("O2 sensor B1S1 – slow response"@),
        dtc_description("P0134"@) == Some("O2 sensor B1S1 – no activity"@),
        dtc_description("P0135"@) == Some("O2 sensor heater B1S1 – circuit malfunction"@),
        dtc_description("P0136"@) == Some("O2 sensor B1S2 – circuit malfunction"@),
        dtc_description("P0137"@) == Some("O2 sensor B1S2 – low voltage"@),
        dtc_description("P0138"@) == Some("O2 sensor B1S2 – high voltage"@),
        dtc_description("P0141"@) == Some("O2 sensor heater B1S2 – circuit malfunction"@),
        dtc_description("P0170"@) == Some("Fuel trim B1 – malfunction"@),
        dtc_description("P0171"@) == Some("Fuel trim B1 – system too lean"@),
        dtc_description("P0172"@) == Some("Fuel trim B1 – system too rich"@),
        dtc_description("P0300"@) == Some("Random/multiple cylinder misfire"@),
        dtc_description("P0301"@) == Some("Cylinder 1 misfire"@),
{
    reveal_strlit("P0100");
    assert(table_code_number("P0100"@) == 100);
    reveal_strlit("P0101");
    assert(table_code_number("P0101"@) == 101);
    reveal_strlit("P0102");
    assert(table_code_number("P0102"@) == 102);
    reveal_strlit("P0103");
    assert(table_code_number("P0103"@) == 103);
    reveal_strlit("P0105");
    assert(table_code_number("P0105"@) == 105);
    reveal_strlit("P0106");
    assert(table_code_number("P0106"@) == 106);
    reveal_strlit("P0107");
    assert(table_code_number("P0107"@) == 107);
    reveal_strlit("P0108");
    assert(table_code_number("P0108"@) == 108);
    reveal_strlit("P0110");
    assert(table_code_number("P0110"@) == 110);
    reveal_strlit("P0112");
    assert(table_code_number("P0112"@) == 112);
    reveal_strlit("P0113");
    assert(table_code_number("P0113"@) == 113);
    reveal_strlit("P0115");
    assert(table_code_number("P0115"@) == 115);
    reveal_strlit("P0116");
    assert(table_code_number("P0116"@) == 116);
    reveal_strlit("P0117");
    assert(table_code_number("P0117"@) == 117);
    reveal_strlit("P0118");
    assert(table_code_number("P0118"@) == 118);
    reveal_strlit("P0120");
    assert(table_code_number("P0120"@) == 120);
    reveal_strlit("P0121");
    assert(table_code_number("P0121"@) == 121);
    reveal_strlit("P0122");
    assert(table_code_number("P0122"@) == 122);
    reveal_strlit("P0123");
    assert(table_code_number("P0123"@) == 123);
    reveal_strlit("P0130");
    assert(table_code_number("P0130"@) == 130);
    reveal_strlit("P0131");
    assert(table_code_number("P0131"@) == 131);
    reveal_strlit("P0132");
    assert(table_code_number("P0132"@) == 132);
    reveal_strlit("P0133");
    assert(table_code_number("P0133"@) == 133);
    reveal_strlit("P0134");
    assert(table_code_number("P0134"@) == 134);
    reveal_strlit("P0135");
    assert(table_code_number("P0135"@) == 135);
    reveal_strlit("P0136");
    assert(table_code_number("P0136"@) == 136);
    reveal_strlit("P0137");
    assert(table_code_number("P0137"@) == 137);
    reveal_strlit("P0138");
    assert(table_code_number("P0138"@) == 138);
    reveal_strlit("P0141");
    assert(table_code_number("P0141"@) == 141);
    reveal_strlit("P0170");
    assert(table_code_number("P0170"@) == 170);
    reveal_strlit("P0171");
    assert(table_code_number("P0171"@) == 171);
    reveal_strlit("P0172");
    assert(table_code_number("P0172"@) == 172);
    reveal_strlit("P0300");
    assert(table_code_number("P0300"@) == 300);
    reveal_strlit("P0301");
    assert(table_code_number("P0301"@) == 301);
}

/// The description table from P0302 to P0455: each of these codes has exactly
/// the description written beside it.
pub proof fn law_dtc_descriptions_p0302_to_p0455()
    ensures
        dtc_description("P0302"@) == Some("Cylinder 2 misfire"@),
        dtc_description("P0303"@) == Some("Cylinder 3 misfire"@),
        dtc_description("P0304"@) == Some("Cylinder 4 misfire"@),
        dtc_description("P0420"@) == Some("Catalyst efficiency below threshold B1"@),
        dtc_description("P0400"@) == Some("EGR flow malfunction"@),
        dtc_description("P0401"@) == Some("EGR flow insufficient"@),
        dtc_description("P0402"@) == Some("EGR flow excessive"@),
        dtc_description("P0403"@) == Some("EGR control circuit malfunction"@),
        dtc_description("P0404"@) == Some("EGR control circuit range/performance"@),
        dtc_description("P0405"@) == Some("EGR sensor A – low input"@),
        dtc_description("P0406"@) == Some("EGR sensor A – high input"@),
        dtc_description("P0440"@) == Some("EVAP system malfunction"@),
        dtc_description("P0441"@) == Some("EVAP purge flow incorrect"@),
        dtc_description("P0442"@) == Some("EVAP small leak"@),
        dtc_description("P0443"@) == Some("EVAP purge control valve – circuit malfunction"@),
        dtc_description("P0446"@) == Some("EVAP vent control circuit malfunction"@),
        dtc_description("P0455"@) == Some("EVAP large leak"@),
{
    reveal_strlit("P0100");
    assert(table_code_number("P0100"@) == 100);
    reveal_strlit("P0101");
    assert(table_code_number("P0101"@) == 101);
    reveal_strlit("P0102");
    assert(table_code_number("P0102"@) == 102);
    reveal_strlit("P0103");
    assert(table_code_number("P0103"@) == 103);
    reveal_strlit("P0105");
    assert(table_code_number("P0105"@) == 105);
    reveal_strlit("P0106");
    assert(table_code_number("P0106"@) == 106);
    reveal_strlit("P0107");
    assert(table_code_number("P0107"@) == 107);
    reveal_strlit("P0108");
    assert(table_code_number("P0108"@) == 108);
    reveal_strlit("P0110");
    assert(table_code_number("P0110"@) == 110);
    reveal_strlit("P0112");
    assert(table_code_number("P0112"@) == 112);
    reveal_strlit("P0113");
    assert(table_code_number("P0113"@) == 113);
    reveal_strlit("P0115");
    assert(table_code_number("P0115"@) == 115);
    reveal_strlit("P0116");
    assert(table_code_number("P0116"@) == 116);
    reveal_strlit("P0117");
    assert(table_code_number("P0117"@) == 117);
    reveal_strlit("P0118");
    assert(table_code_number("P0118"@) == 118);
    reveal_strlit("P0120");
    assert(table_code_number("P0120"@) == 120);
    reveal_strlit("P0121");
    assert(table_code_number("P0121"@) == 121);
    reveal_strlit("P0122");
    assert(table_code_number("P0122"@) == 122);
    reveal_strlit("P0123");
    assert(table_code_number("P0123"@) == 123);
    reveal_strlit("P0130");
    assert(table_code_number("P0130"@) == 130);
    reveal_strlit("P0131");
    assert(table_code_number("P0131"@) == 131);
    reveal_strlit("P0132");
    assert(table_code_number("P0132"@) == 132);
    reveal_strlit("P0133");
    assert(table_code_number("P0133"@) == 133);
    reveal_strlit("P0134");
    assert(table_code_number("P0134"@) == 134);
    reveal_strlit("P0135");
    assert(table_code_number("P0135"@) == 135);
    reveal_strlit("P0136");
    assert(table_code_number("P0136"@) == 136);
    reveal_strlit("P0137");
    assert(table_code_number("P0137"@) == 137);
    reveal_strlit("P0138");
    assert(table_code_number("P0138"@) == 138);
    reveal_strlit("P0141");
    assert(table_code_number("P0141"@) == 141);
    reveal_strlit("P0170");
    assert(table_code_number("P0170"@) == 170);
    reveal_strlit("P0171");
    assert(table_code_number("P0171"@) == 171);
    reveal_strlit("P0172");
    assert(table_code_number("P0172"@) == 172);
    reveal_strlit("P0300");
    assert(table_code_number("P0300"@) == 300);
    reveal_strlit("P0301");
    assert(table_code_number("P0301"@) == 301);
    reveal_strlit("P0302");
    assert(table_code_number("P0302"@) == 302);
    reveal_strlit("P0303");
    assert(table_code_number("P0303"@) == 303);
    reveal_strlit("P0304");
    assert(table_code_number("P0304"@) == 304);
    reveal_strlit("P0420");
    assert(table_code_number("P0420"@) == 420);
    reveal_strlit("P0400");
    assert(table_code_number("P0400"@) == 400);
    reveal_strlit("P0401");
    assert(table_code_number("P0401"@) == 401);
    reveal_strlit("P0402");
    assert(table_code_number("P0402"@) == 402);
    reveal_strlit("P0403");
    assert(table_code_number("P0403"@) == 403);
    reveal_strlit("P0404");
    assert(table_code_number("P0404"@) == 404);
    reveal_strlit("P0405");
    assert(table_code_number("P0405"@) == 405);
    reveal_strlit("P0406");
    assert(table_code_number("P0406"@) == 406);
    reveal_strlit("P0440");
    assert(table_code_number("P0440"@) == 440);
    reveal_strlit("P0441");
    assert(table_code_number("P0441"@) == 441);
    reveal_strlit("P0442");
    assert(table_code_number("P0442"@) == 442);
    reveal_strlit("P0443");
    assert(table_code_number("P0443"@) == 443);
    reveal_strlit("P0446");
    assert(table_code_number("P0446"@) == 446);
    reveal_strlit("P0455");
    assert(table_code_number("P0455"@) == 455);
}

/// The description table from P0456 to P1780: each of these codes has exactly
/// the description written beside it.
pub proof fn law_dtc_descriptions_p0456_to_p1780()
    ensures
        dtc_description("P0456"@) == Some("EVAP very small leak"@),
        dtc_description("P0505"@) == Some("Idle control system malfunction"@),
        dtc_description("P0506"@) == Some("Idle speed too low"@),
        dtc_description("P0507"@) == Some("Idle speed too high"@),
        dtc_description("P0500"@) == Some("Vehicle speed sensor malfunction"@),
        dtc_description("P0501"@) == Some("Vehicle speed sensor range/performance"@),
        dtc_description("P0600"@) == Some("Serial communication link malfunction"@),
        dtc_description("P1210"@) == Some("Fiat: injector circuit – low side short to battery"@),
        dtc_description("P1215"@) == Some("Fiat: fuel pressure regulator – circuit malfunction"@),
        dtc_description("P1351"@) == Some("Fiat: ignition coil primary circuit malfunction"@),
        dtc_description("P1352"@) == Some("Fiat: ignition coil secondary circuit malfunction"@),
        dtc_description("P1600"@) == Some("Fiat: ECU power supply – low voltage"@),
        dtc_description("P1655"@) == Some("Fiat: throttle actuator control – limp home mode active"@),
        dtc_description("P1780"@) == Some("Fiat: drive-by-wire throttle motor open circuit"@),
{
    reveal_strlit("P0100");
    assert(table_code_number("P0100"@) == 100);
    reveal_strlit("P0101");
    assert(table_code_number("P0101"@) == 101);
    reveal_strlit("P0102");
    assert(table_code_number("P0102"@) == 102);
    reveal_strlit("P0103");
    assert(table_code_number("P0103"@) == 103);
    reveal_strlit("P0105");
    assert(table_code_number("P0105"@) == 105);
    reveal_strlit("P0106");
    assert(table_code_number("P0106"@) == 106);
    reveal_strlit("P0107");
    assert(table_code_number("P0107"@) == 107);
    reveal_strlit("P0108");
    assert(table_code_number("P0108"@) == 108);
    reveal_strlit("P0110");
    assert(table_code_number("P0110"@) == 110);
    reveal_strlit("P0112");
    assert(table_code_number("P0112"@) == 112);
    reveal_strlit("P0113");
    assert(table_code_number("P0113"@) == 113);
    reveal_strlit("P0115");
    assert(table_code_number("P0115"@) == 115);
    reveal_strlit("P0116");
    assert(table_code_number("P0116"@) == 116);
    reveal_strlit("P0117");
    assert(table_code_number("P0117"@) == 117);
    reveal_strlit("P0118");
    assert(table_code_number("P0118"@) == 118);
    reveal_strlit("P0120");
    assert(table_code_number("P0120"@) == 120);
    reveal_strlit("P0121");
    assert(table_code_number("P0121"@) == 121);
    reveal_strlit("P0122");
    assert(table_code_number("P0122"@) == 122);
    reveal_strlit("P0123");
    assert(table_code_number("P0123"@) == 123);
    reveal_strlit("P0130");
    assert(table_code_number("P0130"@) == 130);
    reveal_strlit("P0131");
    assert(table_code_number("P0131"@) == 131);
    reveal_strlit("P0132");
    assert(table_code_number("P0132"@) == 132);
    reveal_strlit("P0133");
    assert(table_code_number("P0133"@) == 133);
    reveal_strlit("P0134");
    assert(table_code_number("P0134"@) == 134);
    reveal_strlit("P0135");
    assert(table_code_number("P0135"@) == 135);
    reveal_strlit("P0136");
    assert(table_code_number("P0136"@) == 136);
    reveal_strlit("P0137");
    assert(table_code_number("P0137"@) == 137);
    reveal_strlit("P0138");
    assert(table_code_number("P0138"@) == 138);
    reveal_strlit("P0141");
    assert(table_code_number("P0141"@) == 141);
    reveal_strlit("P0170");
    assert(table_code_number("P0170"@) == 170);
    reveal_strlit("P0171");
    assert(table_code_number("P0171"@) == 171);
    reveal_strlit("P0172");
    assert(table_code_number("P0172"@) == 172);
    reveal_strlit("P0300");
    assert(table_code_number("P0300"@) == 300);
    reveal_strlit("P0301");
    assert(table_code_number("P0301"@) == 301);
    reveal_strlit("P0302");
    assert(table_code_number("P0302"@) == 302);
    reveal_strlit("P0303");
    assert(table_code_number("P0303"@) == 303);
    reveal_strlit("P0304");
    assert(table_code_number("P0304"@) == 304);
    reveal_strlit("P0420");
    assert(table_code_number("P0420"@) == 420);
    reveal_strlit("P0400");
    assert(table_code_number("P0400"@) == 400);
    reveal_strlit("P0401");
    assert(table_code_number("P0401"@) == 401);
    reveal_strlit("P0402");
    assert(table_code_number("P0402"@) == 402);
    reveal_strlit("P0403");
    assert(table_code_number("P0403"@) == 403);
    reveal_strlit("P0404");
    assert(table_code_number("P0404"@) == 404);
    reveal_strlit("P0405");
    assert(table_code_number("P0405"@) == 405);
    reveal_strlit("P0406");
    assert(table_code_number("P0406"@) == 406);
    reveal_strlit("P0440");
    assert(table_code_number("P0440"@) == 440);
    reveal_strlit("P0441");
    assert(table_code_number("P0441"@) == 441);
    reveal_strlit("P0442");
    assert(table_code_number("P0442"@) == 442);
    reveal_strlit("P0443");
    assert(table_code_number("P0443"@) == 443);
    reveal_strlit("P0446");
    assert(table_code_number("P0446"@) == 446);
    reveal_strlit("P0455");
    assert(table_code_number("P0455"@) == 455);
    reveal_strlit("P0456");
    assert(table_code_number("P0456"@) == 456);
    reveal_strlit("P0505");
    assert(table_code_number("P0505"@) == 505);
    reveal_strlit("P0506");
    assert(table_code_number("P0506"@) == 506);
    reveal_strlit("P0507");
    assert(table_code_number("P0507"@) == 507);
    reveal_strlit("P0500");
    assert(table_code_number("P0500"@) == 500);
    reveal_strlit("P0501");
    assert(table_code_number("P0501"@) == 501);
    reveal_strlit("P0600");
    assert(table_code_number("P0600"@) == 600);
    reveal_strlit("P1210");
    assert(table_code_number("P1210"@) == 1210);
    reveal_strlit("P1215");
    assert(table_code_number("P1215"@) == 1215);
    reveal_strlit("P1351");
    assert(table_code_number("P1351"@) == 1351);
    reveal_strlit("P1352");
    assert(table_code_number("P1352"@) == 1352);
    reveal_strlit("P1600");
    assert(table_code_number("P1600"@) == 1600);
    reveal_strlit("P1655");
    assert(table_code_number("P1655"@) == 1655);
    reveal_strlit("P1780");
    assert(table_code_number("P1780"@) == 1780);
}


/// Only the codes of the table have a description: every other code has none.
pub proof fn law_dtc_descriptions_only_for_listed_codes(c: Seq<char>)
    ensures
        dtc_description(c) is Some ==> {
            ||| c == "P0100"@
            ||| c == "P0101"@
            ||| c == "P0102"@
            ||| c == "P0103"@
            ||| c == "P0105"@
            ||| c == "P0106"@
            ||| c == "P0107"@
            ||| c == "P0108"@
            ||| c == "P0110"@
            ||| c == "P0112"@
            ||| c == "P0113"@
            ||| c == "P0115"@
            ||| c == "P0116"@
            ||| c == "P0117"@
            ||| c == "P0118"@
            ||| c == "P0120"@
            ||| c == "P0121"@
            ||| c == "P0122"@
            ||| c == "P0123"@
            ||| c == "P0130"@
            ||| c == "P0131"@
            ||| c == "P0132"@
            ||| c == "P0133"@
            ||| c == "P0134"@
            ||| c == "P0135"@
            ||| c == "P0136"@
            ||| c == "P0137"@
            ||| c == "P0138"@
            ||| c == "P0141"@
            ||| c == "P0170"@
            ||| c == "P0171"@
            ||| c == "P0172"@
            ||| c == "P0300"@
            ||| c == "P0301"@
            ||| c == "P0302"@
            ||| c == "P0303"@
            ||| c == "P0304"@
            ||| c == "P0420"@
            ||| c == "P0400"@
            ||| c == "P0401"@
            ||| c == "P0402"@
            ||| c == "P0403"@
            ||| c == "P0404"@
            ||| c == "P0405"@
            ||| c == "P0406"@
            ||| c == "P0440"@
            ||| c == "P0441"@
            ||| c == "P0442"@
            ||| c == "P0443"@
            ||| c == "P0446"@
            ||| c == "P0455"@
            ||| c == "P0456"@
            ||| c == "P0505"@
            ||| c == "P0506"@
            ||| c == "P0507"@
            ||| c == "P0500"@
            ||| c == "P0501"@
            ||| c == "P0600"@
            ||| c == "P1210"@
            ||| c == "P1215"@
            ||| c == "P1351"@
            ||| c == "P1352"@
            ||| c == "P1600"@
            ||| c == "P1655"@
            ||| c == "P1780"@
        },
{
}

/// The text of a DTC is its code, then a spaced dash, then the description
/// the DTC carries, or a note that the code is unknown when it carries none;
/// for every code and every description.
pub proof fn law_dtc_text_shows_description(code: Seq<char>, description: Option<Seq<char>>)
    ensures
        dtc_text(code, description).subrange(0, code.len() as int) == code,
        dtc_text(code, description).subrange(code.len() as int, code.len() + 3int) == seq![
            ' ',
            '–',
            ' ',
        ],
        description matches Some(d) ==> dtc_text(code, description).skip(code.len() + 3int) == d,
        description is None ==> dtc_text(code, description).skip(code.len() + 3int)
            == "(unknown/manufacturer-specific)"@,
{
    reveal_strlit(" – ");
    reveal_strlit(" – (unknown/manufacturer-specific)");
    reveal_strlit("(unknown/manufacturer-specific)");
    let t = dtc_text(code, description);
    match description {
        Some(d) => {
            assert(t =~= code + seq![' ', '–', ' '] + d);
        },
        None => {
            assert(" – (unknown/manufacturer-specific)"@ =~= seq![' ', '–', ' ']
                + "(unknown/manufacturer-specific)"@);
            assert(t =~= code + seq![' ', '–', ' '] + "(unknown/manufacturer-specific)"@);
        },
    }
}

/// A line that says the ECU sent no data: exactly `NODATA` or `NO DATA`.
pub open spec fn is_no_data_line(l: Seq<char>) -> bool {
    l == "NODATA"@ || l == "NO DATA"@
}

/// The first line of an OBD reply that says "no data" or holds `ERROR`
/// decides the reply: "no data" for a no-data line, else an adapter error
/// carrying that very line.
pub proof fn law_first_faulty_line_decides(lines: Seq<Seq<char>>, i: int)
    requires
        0 <= i < lines.len(),
        forall|j: int|
            0 <= j < i ==> !is_no_data_line(#[trigger] lines[j]) && !contains(lines[j], "ERROR"@),
    ensures
        is_no_data_line(lines[i]) ==> obd_reply_fault(lines) == Some(Fault::NoData),
        !is_no_data_line(lines[i]) && contains(lines[i], "ERROR"@) ==> obd_reply_fault(lines)
            == Some(Fault::Elm(lines[i])),
    decreases i,
{
    if i > 0 {
        let rest = lines.drop_first();
        assert forall|j: int| 0 <= j < i - 1 implies !is_no_data_line(#[trigger] rest[j])
            && !contains(rest[j], "ERROR"@) by {
            assert(rest[j] == lines[j + 1]);
        }
        assert(!is_no_data_line(lines[0]) && !contains(lines[0], "ERROR"@));
        lemma_first_faulty_line(rest, i - 1);
        assert(rest[i - 1] == lines[i]);
    }
}

proof fn lemma_first_faulty_line(lines: Seq<Seq<char>>, i: int)
    requires
        0 <= i < lines.len(),
        forall|j: int|
            0 <= j < i ==> !is_no_data_line(#[trigger] lines[j]) && !contains(lines[j], "ERROR"@),
    ensures
        is_no_data_line(lines[i]) ==> first_obd_fault(lines) == Some(Fault::NoData),
        !is_no_data_line(lines[i]) && contains(lines[i], "ERROR"@) ==> first_obd_fault(lines)
            == Some(Fault::Elm(lines[i])),
    decreases i,
{
    if i > 0 {
        let rest = lines.drop_first();
        assert forall|j: int| 0 <= j < i - 1 implies !is_no_data_line(#[trigger] rest[j])
            && !contains(rest[j], "ERROR"@) by {
            assert(rest[j] == lines[j + 1]);
        }
        assert(!is_no_data_line(lines[0]) && !contains(lines[0], "ERROR"@));
        lemma_first_faulty_line(rest, i - 1);
        assert(rest[i - 1] == lines[i]);
    }
}

/// An OBD reply counts as "no data" only when it is empty or one of its lines
/// is exactly `NODATA` or `NO DATA`, with no line before it holding `ERROR`.
pub proof fn law_no_data_only_from_no_data_lines(lines: Seq<Seq<char>>)
    requires
        obd_reply_fault(lines) == Some(Fault::NoData),
    ensures
        lines.len() == 0 || exists|i: int|
            0 <= i < lines.len() && is_no_data_line(#[trigger] lines[i]) && forall|j: int|
                0 <= j < i ==> !contains(#[trigger] lines[j], "ERROR"@),
{
    if lines.len() > 0 {
        lemma_no_data_line_found(lines);
    }
}

proof fn lemma_no_data_line_found(lines: Seq<Seq<char>>)
    requires
        first_obd_fault(lines) == Some(Fault::NoData),
    ensures
        exists|i: int|
            0 <= i < lines.len() && is_no_data_line(#[trigger] lines[i]) && forall|j: int|
                0 <= j < i ==> !contains(#[trigger] lines[j], "ERROR"@),
    decreases lines.len(),
{
    if obd_line_fault(lines[0]) is Some {
        assert(is_no_data_line(lines[0]));
        assert(forall|j: int| 0 <= j < 0 ==> !contains(#[trigger] lines[j], "ERROR"@));
    } else {
        let rest = lines.drop_first();
        lemma_no_data_line_found(rest);
        let k = choose|k: int|
            0 <= k < rest.len() && is_no_data_line(#[trigger] rest[k]) && forall|j: int|
                0 <= j < k ==> !contains(#[trigger] rest[j], "ERROR"@);
        assert(rest[k] == lines[k + 1]);
        assert forall|j: int| 0 <= j < k + 1 implies !contains(#[trigger] lines[j], "ERROR"@) by {
            if j > 0 {
                assert(lines[j] == rest[j - 1]);
            }
        }
        assert(is_no_data_line(lines[k + 1]));
    }
}

/// An OBD reply with at least one line, none of them a no-data line or a
/// line holding `ERROR`, passes the check; an empty reply is "no data".
pub proof fn law_clean_obd_reply_passes(lines: Seq<Seq<char>>)
    ensures
        lines.len() == 0 ==> obd_reply_fault(lines) == Some(Fault::NoData),
        lines.len() > 0 && (forall|j: int|
            0 <= j < lines.len() ==> !is_no_data_line(#[trigger] lines[j]) && !contains(
                lines[j],
                "ERROR"@,
            )) ==> obd_reply_fault(lines) is None,
    decreases lines.len(),
{
    if lines.len() > 0 && (forall|j: int|
        0 <= j < lines.len() ==> !is_no_data_line(#[trigger] lines[j]) && !contains(
            lines[j],
            "ERROR"@,
        )) {
        lemma_clean_lines(lines);
    }
}

proof fn lemma_clean_lines(lines: Seq<Seq<char>>)
    requires
        forall|j: int|
            0 <= j < lines.len() ==> !is_no_data_line(#[trigger] lines[j]) && !contains(
                lines[j],
                "ERROR"@,
            ),
    ensures
        first_obd_fault(lines) is None,
    decreases lines.len(),
{
    if lines.len() > 0 {
        let rest = lines.drop_first();
        assert forall|j: int| 0 <= j < rest.len() implies !is_no_data_line(#[trigger] rest[j])
            && !contains(rest[j], "ERROR"@) by {
            assert(rest[j] == lines[j + 1]);
        }
        assert(!is_no_data_line(lines[0]) && !contains(lines[0], "ERROR"@));
        lemma_clean_lines(rest);
    }
}

/// The reply to an AT command fails on its first line holding `ERROR`, with
/// the command, `: ` and that line; without such a line it passes.
pub proof fn law_at_reply_first_error(cmd: Seq<char>, lines: Seq<Seq<char>>, i: int)
    ensures
        0 <= i < lines.len() && contains(lines[i], "ERROR"@) && (forall|j: int|
            0 <= j < i ==> !contains(#[trigger] lines[j], "ERROR"@)) ==> at_reply_fault(cmd, lines)
            == Some(Fault::Elm(cmd + seq![':', ' '] + lines[i])),
        (forall|j: int| 0 <= j < lines.len() ==> !contains(#[trigger] lines[j], "ERROR"@))
            ==> at_reply_fault(cmd, lines) is None,
{
    reveal_strlit(": ");
    assert(": "@ =~= seq![':', ' ']);
    if 0 <= i < lines.len() && contains(lines[i], "ERROR"@) && (forall|j: int|
        0 <= j < i ==> !contains(#[trigger] lines[j], "ERROR"@)) {
        lemma_first_error_line_at(lines, i);
    }
    if forall|j: int| 0 <= j < lines.len() ==> !contains(#[trigger] lines[j], "ERROR"@) {
        lemma_no_error_line(lines);
    }
}

proof fn lemma_first_error_line_at(lines: Seq<Seq<char>>, i: int)
    requires
        0 <= i < lines.len(),
        contains(lines[i], "ERROR"@),
        forall|j: int| 0 <= j < i ==> !contains(#[trigger] lines[j], "ERROR"@),
    ensures
        first_error_line(lines) == Some(lines[i]),
    decreases i,
{
    if i > 0 {
        let rest = lines.drop_first();
        assert forall|j: int| 0 <= j < i - 1 implies !contains(#[trigger] rest[j], "ERROR"@) by {
            assert(rest[j] == lines[j + 1]);
        }
        assert(!contains(lines[0], "ERROR"@));
        assert(rest[i - 1] == lines[i]);
        lemma_first_error_line_at(rest, i - 1);
    }
}

proof fn lemma_no_error_line(lines: Seq<Seq<char>>)
    requires
        forall|j: int| 0 <= j < lines.len() ==> !contains(#[trigger] lines[j], "ERROR"@),
    ensures
        first_error_line(lines) is None,
    decreases lines.len(),
{
    if lines.len() > 0 {
        let rest = lines.drop_first();
        assert forall|j: int| 0 <= j < rest.len() implies !contains(#[trigger] rest[j], "ERROR"@) by {
            assert(rest[j] == lines[j + 1]);
        }
        assert(!contains(lines[0], "ERROR"@));
        lemma_no_error_line(rest);
    }
}

/// The `Debug` text of a byte list lists every byte, in order: no bytes give
/// `[]`, one byte gives `[b]`, and one more byte adds `, ` and its decimal text
/// before the closing bracket.
pub proof fn law_debug_bytes_lists_every_byte(data: Seq<u8>, b: u8)
    ensures
        debug_bytes(seq![]) == seq!['[', ']'],
        debug_bytes(seq![b]) == seq!['['] + decimal(b as nat) + seq![']'],
        data.len() > 0 ==> debug_bytes(data.push(b)) == debug_bytes(data).drop_last() + seq![
            ',',
            ' ',
        ] + decimal(b as nat) + seq![']'],
{
    assert(debug_bytes(seq![]) =~= seq!['[', ']']);
    assert(debug_bytes(seq![b]) =~= seq!['['] + decimal(b as nat) + seq![']']);
    if data.len() > 0 {
        let p = data.push(b);
        assert(p.drop_last() =~= data);
        assert((seq!['['] + debug_byte_items(data) + seq![']']).drop_last() =~= seq!['[']
            + debug_byte_items(data));
        assert(debug_bytes(p) =~= debug_bytes(data).drop_last() + seq![',', ' '] + decimal(
            b as nat,
        ) + seq![']']);
    }
}

/// The lower-case hexadecimal digit char for `d` (0 ..= 15).
pub open spec fn lower_hex_char(d: int) -> char {
    if d < 10 {
        (48 + d) as char
    } else {
        (87 + d) as char
    }
}

/// Digits read as `char::to_digit` reads them: in base 16, `0`-`9`, `a`-`f`
/// and `A`-`F` give their value in either case, and nothing else is a digit;
/// in base 10, only `0`-`9`.
pub proof fn law_digit_value(c: char, d: int)
    requires
        0 <= d < 16,
    ensures
        digit_value(lower_hex_char(d), 16) == Some(d as u8),
        digit_value(hex_char(d), 16) == Some(d as u8),
        digit_value(c, 16) is Some ==> c == lower_hex_char(digit_value(c, 16)->0 as int) || c
            == hex_char(digit_value(c, 16)->0 as int),
        digit_value(c, 16) is Some ==> digit_value(c, 16)->0 < 16,
        d < 10 ==> digit_value(digit_char(d), 10) == Some(d as u8),
        digit_value(c, 10) is Some ==> digit_value(c, 10)->0 < 10 && c == digit_char(
            digit_value(c, 10)->0 as int,
        ),
{
}

/// `0x` or `0X` and the two lower-case hex digits of a PID read back as that PID.
pub proof fn law_pid_arg_hex_lower(n: u8, prefix: char)
    requires
        prefix == 'x' || prefix == 'X',
    ensures
        pid_arg_value(
            seq!['0', prefix] + seq![lower_hex_char((n / 16) as int), lower_hex_char((n % 16) as int)],
        ) == Ok::<u8, crate::cli::IntFault>(n),
{
    let h = seq![lower_hex_char((n / 16) as int), lower_hex_char((n % 16) as int)];
    let s = seq!['0', prefix] + h;
    law_digit_value(' ', (n / 16) as int);
    law_digit_value(' ', (n % 16) as int);
    assert(trim_start(s) == s);
    assert(trim_end(s) == s);
    assert(s.skip(2) =~= h);
    reveal_with_fuel(accumulate, 3);
    assert(h.drop_first() =~= seq![lower_hex_char((n % 16) as int)]);
    assert(h.drop_first().drop_first() =~= Seq::<char>::empty());
    assert((n / 16) * 16 + n % 16 == n);
}

} // verus!
