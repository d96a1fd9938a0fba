//! Decompanding lookup tables.
//!
//! A [`LookUpTable`] maps an 8-bit companded sample value to its linear
//! radiometric value.  The table always holds exactly 256 entries; its last
//! entry is the post-decompanding dynamic-range ceiling used by the
//! correlated normalization strategy.

use vstd::prelude::*;

use crate::enums::Instrument;
use crate::error::CalError;

verus! {

/// Built-in companding inverse for the engineering cameras.
pub const ILT: [u32; 256] = [
    0, 2, 3, 3, 4, 5, 5, 6, 7, 8, 9, 10, 11, 12, 14, 15, 16, 18, 19, 20, 22, 24, 25, 27, 29, 31,
    33, 35, 37, 39, 41, 43, 46, 48, 50, 53, 55, 58, 61, 63, 66, 69, 72, 75, 78, 81, 84, 87, 90, 94,
    97, 100, 104, 107, 111, 115, 118, 122, 126, 130, 134, 138, 142, 146, 150, 154, 159, 163, 168,
    172, 177, 181, 186, 191, 196, 201, 206, 211, 216, 221, 226, 231, 236, 241, 247, 252, 258, 263,
    269, 274, 280, 286, 292, 298, 304, 310, 316, 322, 328, 334, 341, 347, 354, 360, 367, 373, 380,
    387, 394, 401, 408, 415, 422, 429, 436, 443, 450, 458, 465, 472, 480, 487, 495, 503, 510, 518,
    526, 534, 542, 550, 558, 566, 575, 583, 591, 600, 608, 617, 626, 634, 643, 652, 661, 670, 679,
    688, 697, 706, 715, 724, 733, 743, 752, 761, 771, 781, 790, 800, 810, 819, 829, 839, 849, 859,
    869, 880, 890, 900, 911, 921, 932, 942, 953, 964, 974, 985, 996, 1007, 1018, 1029, 1040, 1051,
    1062, 1074, 1085, 1096, 1108, 1119, 1131, 1142, 1154, 1166, 1177, 1189, 1201, 1213, 1225, 1237,
    1249, 1262, 1274, 1286, 1299, 1311, 1324, 1336, 1349, 1362, 1374, 1387, 1400, 1413, 1426, 1439,
    1452, 1465, 1479, 1492, 1505, 1519, 1532, 1545, 1559, 1573, 1586, 1600, 1614, 1628, 1642, 1656,
    1670, 1684, 1698, 1712, 1727, 1741, 1755, 1770, 1784, 1799, 1814, 1828, 1843, 1858, 1873, 1888,
    1903, 1918, 1933, 1948, 1963, 1979, 1994, 2009, 2025, 2033,
];

/// Built-in companding inverse for the lander instrument deployment camera.
pub const NSYT_ILT: [u32; 256] = [
    0, 0, 0, 0, 0, 1, 1, 2, 2, 3, 3, 4, 5, 6, 7, 8, 9, 11, 12, 14, 15, 17, 19, 21, 23, 25, 27, 29,
    32, 34, 37, 40, 43, 46, 49, 52, 55, 59, 62, 66, 70, 73, 77, 82, 86, 90, 95, 99, 104, 109, 114,
    119, 124, 129, 135, 140, 146, 152, 158, 164, 170, 176, 182, 189, 196, 202, 209, 216, 224, 231,
    238, 246, 254, 261, 269, 277, 286, 294, 302, 311, 320, 328, 337, 347, 356, 365, 375, 384, 394,
    404, 414, 424, 435, 445, 456, 467, 477, 488, 500, 511, 522, 534, 545, 557, 569, 581, 594, 606,
    619, 631, 644, 657, 670, 683, 697, 710, 724, 738, 752, 766, 780, 794, 809, 823, 838, 853, 868,
    884, 899, 914, 930, 946, 962, 978, 994, 1011, 1027, 1044, 1061, 1078, 1095, 1112, 1130, 1147,
    1165, 1183, 1201, 1219, 1237, 1256, 1274, 1293, 1312, 1331, 1350, 1370, 1389, 1409, 1429, 1449,
    1469, 1489, 1509, 1530, 1551, 1572, 1593, 1614, 1635, 1657, 1678, 1700, 1722, 1744, 1766, 1789,
    1811, 1834, 1857, 1880, 1903, 1926, 1950, 1974, 1997, 2021, 2045, 2070, 2094, 2119, 2144, 2168,
    2193, 2219, 2244, 2270, 2295, 2321, 2347, 2373, 2400, 2426, 2453, 2479, 2506, 2534, 2561, 2588,
    2616, 2644, 2671, 2700, 2728, 2756, 2785, 2813, 2842, 2871, 2900, 2930, 2959, 2989, 3019, 3049,
    3079, 3109, 3140, 3170, 3201, 3232, 3263, 3295, 3326, 3358, 3390, 3421, 3454, 3486, 3518, 3551,
    3584, 3617, 3650, 3683, 3716, 3750, 3784, 3818, 3852, 3886, 3920, 3955, 3990, 4025, 4060, 4095,
];

/// Published companding inverse for the second-generation color cameras.
pub const LUT2: [u32; 256] = [
    0, 1, 127, 131, 135, 140, 144, 149, 153, 158, 163, 168, 173, 178, 183, 188, 193, 199, 204, 210,
    215, 221, 227, 233, 239, 245, 251, 257, 263, 269, 276, 282, 289, 296, 302, 309, 316, 323, 330,
    337, 345, 352, 359, 367, 374, 382, 390, 398, 406, 414, 422, 430, 438, 447, 455, 464, 472, 481,
    490, 499, 508, 517, 526, 535, 544, 554, 563, 573, 582, 592, 602, 612, 622, 632, 642, 653, 663,
    674, 684, 695, 705, 716, 727, 738, 749, 761, 772, 783, 795, 806, 818, 830, 841, 853, 865, 877,
    890, 902, 914, 927, 939, 952, 965, 978, 990, 1004, 1017, 1030, 1043, 1057, 1070, 1084, 1097,
    1111, 1125, 1139, 1153, 1167, 1181, 1196, 1210, 1225, 1239, 1254, 1269, 1284, 1299, 1314, 1329,
    1344, 1360, 1375, 1391, 1406, 1422, 1438, 1454, 1470, 1486, 1502, 1519, 1535, 1552, 1568, 1585,
    1602, 1619, 1636, 1653, 1670, 1687, 1705, 1722, 1740, 1758, 1775, 1793, 1811, 1829, 1848, 1866,
    1884, 1903, 1921, 1940, 1959, 1978, 1997, 2016, 2035, 2054, 2074, 2093, 2113, 2132, 2152, 2172,
    2192, 2212, 2232, 2252, 2273, 2293, 2314, 2335, 2355, 2376, 2397, 2418, 2439, 2461, 2482, 2504,
    2525, 2547, 2569, 2590, 2612, 2634, 2657, 2679, 2701, 2724, 2746, 2769, 2792, 2815, 2838, 2861,
    2884, 2907, 2931, 2954, 2978, 3002, 3025, 3049, 3073, 3098, 3122, 3146, 3171, 3195, 3220, 3244,
    3269, 3294, 3319, 3345, 3370, 3395, 3421, 3446, 3472, 3498, 3524, 3550, 3576, 3602, 3628, 3655,
    3681, 3708, 3734, 3761, 3788, 3815, 3842, 3870, 3897, 3924, 3952, 3980, 4007, 4035, 4095,
];

/// An immutable sequence of exactly 256 non-negative integers mapping an
/// 8-bit companded sample value to a linear radiometric value.
#[derive(Debug, Clone)]
pub struct LookUpTable {
    pub lut: Vec<u32>,
}

impl LookUpTable {
    /// The structural invariant: the table holds exactly 256 entries.
    pub open spec fn well_formed(&self) -> bool {
        self.lut@.len() == 256
    }

    /// Builds a table from a compiled-in constant array.
    pub fn new(lut: &[u32; 256]) -> (r: LookUpTable)
        ensures
            r.well_formed(),
            r.lut@ == lut@,
    {
        let mut v: Vec<u32> = Vec::new();
        let mut i: usize = 0;
        while i < 256
            invariant
                i <= 256,
                v@.len() == i,
                forall|j: int| 0 <= j < i ==> v@[j] == lut@[j],
            decreases 256 - i,
        {
            v.push(lut[i]);
            i = i + 1;
        }
        proof {
            assert(v@ =~= lut@);
        }
        LookUpTable { lut: v }
    }

    /// Builds a table from a parsed sequence; any length other than 256 is
    /// rejected with a length-mismatch error.
    pub fn new_from_vec(lut: &Vec<u32>) -> (r: Result<LookUpTable, CalError>)
        ensures
            r is Ok <==> lut@.len() == 256,
            r matches Ok(t) ==> t.well_formed() && t.lut@ == lut@,
            r matches Err(e) ==> e == CalError::InvalidLookupTable,
    {
        if lut.len() != 256 {
            Err(CalError::InvalidLookupTable)
        } else {
            Ok(LookUpTable { lut: lut.clone() })
        }
    }

    /// The table's 256th entry: the post-decompanding dynamic-range ceiling.
    pub fn max(&self) -> (r: u32)
        requires
            self.well_formed(),
        ensures
            r == self.lut@[255],
    {
        self.lut[255]
    }

    /// The table contents as a fixed-size array.
    pub fn to_array(&self) -> (r: [u32; 256])
        requires
            self.well_formed(),
        ensures
            r@ == self.lut@,
    {
        let mut arr: [u32; 256] = [0; 256];
        let mut i: usize = 0;
        while i < 256
            invariant
                self.well_formed(),
                i <= 256,
                forall|j: int| 0 <= j < i ==> arr@[j] == self.lut@[j],
            decreases 256 - i,
        {
            arr[i] = self.lut[i];
            i = i + 1;
        }
        proof {
            assert(arr@ =~= self.lut@);
        }
        arr
    }
}

/// True for an ASCII decimal digit byte.
pub open spec fn is_digit_byte(b: u8) -> bool {
    48 <= b && b <= 57
}

/// The end of the maximal digit run beginning at `i`: the first index at or
/// after `i` holding a non-digit byte, or the sequence's length.
pub open spec fn run_end(s: Seq<u8>, i: int) -> int
    decreases s.len() - i,
{
    if i >= s.len() {
        s.len() as int
    } else if !is_digit_byte(s[i]) {
        i
    } else {
        run_end(s, i + 1)
    }
}

/// A table line matches at `i` when a digit run starts there, followed by a
/// single space and at least one further digit.
pub open spec fn match_at(s: Seq<u8>, i: int) -> bool {
    &&& 0 <= i < s.len()
    &&& is_digit_byte(s[i])
    &&& ({
        let j = run_end(s, i);
        j < s.len() && s[j] == 32 && j + 1 < s.len() && is_digit_byte(s[j + 1])
    })
}

/// The leftmost position in `s` at or after `i` where the two-integer
/// pattern matches, or the sequence's length when no position does.
pub open spec fn find_match(s: Seq<u8>, i: int) -> int
    decreases s.len() - i,
{
    if i >= s.len() {
        s.len() as int
    } else if match_at(s, i) {
        i
    } else {
        find_match(s, i + 1)
    }
}

/// The integer denoted by a sequence of ASCII digit bytes, most significant
/// first.
pub open spec fn digits_val(s: Seq<u8>) -> int
    decreases s.len(),
{
    if s.len() == 0 {
        0
    } else {
        digits_val(s.drop_last()) * 10 + (s.last() - 48)
    }
}

/// A digit run read as `u32`; a value above the `u32` range is read as 0,
/// mirroring the lenient handling of malformed table data.
pub open spec fn capped_value(s: Seq<u8>) -> u32 {
    if digits_val(s) > u32::MAX {
        0u32
    } else {
        digits_val(s) as u32
    }
}

/// The table entry contributed by one line: the second captured integer of
/// the leftmost "digits, space, digits" match, if the line has one.
pub open spec fn line_value(s: Seq<u8>) -> Option<u32> {
    let p = find_match(s, 0);
    if p == s.len() {
        None
    } else {
        let j = run_end(s, p);
        let k = run_end(s, j + 1);
        Some(capped_value(s.subrange(j + 1, k)))
    }
}

/// The (zero- or one-element) entry sequence contributed by one line.
pub open spec fn line_entry(s: Seq<u8>) -> Seq<u32> {
    match line_value(s) {
        Some(v) => seq![v],
        None => Seq::empty(),
    }
}

/// The entries of the text from position `i` on, where the current line
/// began at `start`.  Lines are separated by newline bytes.
pub open spec fn entries_rec(s: Seq<u8>, i: int, start: int) -> Seq<u32>
    recommends
        0 <= start <= i,
    decreases s.len() - i,
{
    if i >= s.len() {
        line_entry(s.subrange(start, s.len() as int))
    } else if s[i] == 10 {
        line_entry(s.subrange(start, i)) + entries_rec(s, i + 1, i + 1)
    } else {
        entries_rec(s, i + 1, start)
    }
}

/// All table entries of a decompanding spec text, in line order.  Lines not
/// matching the two-integer pattern contribute nothing.
pub open spec fn lut_entries(s: Seq<u8>) -> Seq<u32> {
    entries_rec(s, 0, 0)
}

proof fn lemma_digits_val_nonneg(s: Seq<u8>)
    requires
        forall|x: int| 0 <= x < s.len() ==> is_digit_byte(s[x]),
    ensures
        digits_val(s) >= 0,
    decreases s.len(),
{
    if s.len() > 0 {
        lemma_digits_val_nonneg(s.drop_last());
    }
}

proof fn lemma_entries_rec_line_gen(s: Seq<u8>, i: int, start: int, e: int)
    requires
        0 <= start <= i <= e <= s.len(),
        forall|x: int| i <= x < e ==> s[x] != 10,
        e < s.len() ==> s[e] == 10,
    ensures
        entries_rec(s, i, start) =~= line_entry(s.subrange(start, e)) + (if e < s.len() {
            entries_rec(s, e + 1, e + 1)
        } else {
            Seq::<u32>::empty()
        }),
    decreases e - i,
{
    if i == e {
        if e == s.len() {
            assert(entries_rec(s, i, start) == line_entry(s.subrange(start, s.len() as int)));
        }
    } else {
        lemma_entries_rec_line_gen(s, i + 1, start, e);
    }
}

/// A text's entries are the current line's entry followed by those of the
/// rest: the line runs from `start` to `e`, the first newline at or after
/// `start` (or the end of the text).
pub proof fn lemma_entries_rec_line(s: Seq<u8>, start: int, e: int)
    requires
        0 <= start <= e <= s.len(),
        forall|x: int| start <= x < e ==> s[x] != 10,
        e < s.len() ==> s[e] == 10,
    ensures
        entries_rec(s, start, start) =~= line_entry(s.subrange(start, e)) + (if e < s.len() {
            entries_rec(s, e + 1, e + 1)
        } else {
            Seq::<u32>::empty()
        }),
{
    lemma_entries_rec_line_gen(s, start, start, e);
}

proof fn lemma_entries_rec_reindex(s: Seq<u8>, t: Seq<u8>, off: int, j: int, start: int)
    requires
        0 <= off <= start <= j <= s.len(),
        t == s.subrange(off, s.len() as int),
    ensures
        entries_rec(s, j, start) == entries_rec(t, j - off, start - off),
    decreases s.len() - j,
{
    if j >= s.len() {
        assert(s.subrange(start, s.len() as int) =~= t.subrange(start - off, t.len() as int));
    } else if s[j] == 10 {
        assert(t[j - off] == 10);
        assert(s.subrange(start, j) =~= t.subrange(start - off, j - off));
        lemma_entries_rec_reindex(s, t, off, j + 1, j + 1);
    } else {
        lemma_entries_rec_reindex(s, t, off, j + 1, start);
    }
}

/// Entries accumulate strictly in line order: a text beginning with one
/// newline-free line contributes that line's entry (one value if the line
/// matches the two-integer pattern, none otherwise) followed by the entries
/// of the remaining text, whatever either part holds.
pub proof fn lemma_lut_entries_line_order(line: Seq<u8>, rest: Seq<u8>)
    requires
        forall|x: int| 0 <= x < line.len() ==> line[x] != 10,
    ensures
        lut_entries(line + seq![10u8] + rest) =~= line_entry(line) + lut_entries(rest),
{
    let s = line + seq![10u8] + rest;
    let n = line.len() as int;
    assert(s[n] == 10);
    assert forall|x: int| 0 <= x < n implies s[x] != 10 by {
        assert(s[x] == line[x]);
    }
    lemma_entries_rec_line_gen(s, 0, 0, n);
    assert(s.subrange(0, n) =~= line);
    lemma_entries_rec_reindex(s, s.subrange(n + 1, s.len() as int), n + 1, n + 1, n + 1);
    assert(s.subrange(n + 1, s.len() as int) =~= rest);
}

fn run_end_exec(line: &Vec<u8>, i: usize) -> (r: usize)
    requires
        i <= line@.len(),
    ensures
        r == run_end(line@, i as int),
        i <= r <= line@.len(),
        forall|x: int| i <= x < r ==> is_digit_byte(line@[x]),
        r < line@.len() ==> !is_digit_byte(line@[r as int]),
{
    let n = line.len();
    let mut j = i;
    let mut done = false;
    while !done
        invariant
            i <= j <= n,
            n == line@.len(),
            forall|x: int| i <= x < j ==> is_digit_byte(line@[x]),
            run_end(line@, i as int) == run_end(line@, j as int),
            done ==> (j == n || !is_digit_byte(line@[j as int])),
        decreases n - j + (if done { 0int } else { 1int }),
    {
        if j >= n {
            done = true;
        } else {
            let b = line[j];
            if 48 <= b && b <= 57 {
                j = j + 1;
            } else {
                done = true;
            }
        }
    }
    assert(run_end(line@, j as int) == j as int);
    j
}

/// The table entry contributed by one line of a decompanding spec text.
pub fn line_value_exec(line: &Vec<u8>) -> (r: Option<u32>)
    ensures
        r == line_value(line@),
{
    let n = line.len();
    let mut p: usize = 0;
    let mut j: usize = 0;
    let mut found = false;
    let mut done = false;
    while !done
        invariant
            p <= n,
            n == line@.len(),
            find_match(line@, 0) == find_match(line@, p as int),
            !done ==> !found,
            done && found ==> p < n && match_at(line@, p as int) && j == run_end(
                line@,
                p as int,
            ) && find_match(line@, 0) == p,
            done && !found ==> find_match(line@, 0) == n,
        decreases n - p + (if done { 0int } else { 1int }),
    {
        if p >= n {
            done = true;
        } else {
            let b = line[p];
            if 48 <= b && b <= 57 {
                let r = run_end_exec(line, p);
                let mut quals = false;
                if r < n {
                    let sp = line[r];
                    if sp == 32 && r + 1 < n {
                        let b2 = line[r + 1];
                        if 48 <= b2 && b2 <= 57 {
                            quals = true;
                        }
                    }
                }
                if quals {
                    found = true;
                    done = true;
                    j = r;
                    proof {
                        assert(match_at(line@, p as int));
                        assert(find_match(line@, p as int) == p as int);
                    }
                } else {
                    assert(!match_at(line@, p as int));
                    p = p + 1;
                }
            } else {
                assert(!match_at(line@, p as int));
                p = p + 1;
            }
        }
    }
    if !found {
        return None;
    }
    let k = run_end_exec(line, j + 1);
    let ghost digits = line@.subrange(j + 1, k as int);
    let mut acc: u64 = 0;
    let mut idx = j + 1;
    while idx < k
        invariant
            j + 1 <= idx <= k <= n,
            n == line@.len(),
            forall|x: int| j + 1 <= x < k ==> is_digit_byte(line@[x]),
            digits == line@.subrange(j + 1, k as int),
            (if digits_val(line@.subrange(j + 1, idx as int)) > u32::MAX {
                acc == 0x1_0000_0000u64
            } else {
                acc == digits_val(line@.subrange(j + 1, idx as int))
            }),
        decreases k - idx,
    {
        let ghost pre = line@.subrange(j + 1, idx as int);
        let ghost post = line@.subrange(j + 1, idx + 1 as int);
        proof {
            assert(post.drop_last() =~= pre);
            assert(post.last() == line@[idx as int]);
            lemma_digits_val_nonneg(pre);
        }
        let d = line[idx];
        let dd: u64 = (d - 48) as u64;
        let next: u64 = acc * 10 + dd;
        if next > 0xFFFF_FFFFu64 {
            acc = 0x1_0000_0000u64;
        } else {
            acc = next;
        }
        idx = idx + 1;
    }
    assert(line@.subrange(j + 1, idx as int) == digits);
    if acc > 0xFFFF_FFFFu64 {
        Some(0)
    } else {
        Some(acc as u32)
    }
}

/// Parses the text of a decompanding spec file.  Every line matching the
/// two-integer pattern contributes its second integer, in line order; all
/// other lines (embedded label or header noise) are skipped.  The parse
/// succeeds exactly when 256 entries accumulate.
pub fn parse_ilut_spec_text(text: &Vec<u8>) -> (r: Result<LookUpTable, CalError>)
    requires
        text@.len() < usize::MAX,
    ensures
        r is Ok <==> lut_entries(text@).len() == 256,
        r matches Ok(t) ==> t.well_formed() && t.lut@ == lut_entries(text@),
        r matches Err(e) ==> e == CalError::InvalidLookupTable,
{
    let n = text.len();
    let mut acc: Vec<u32> = Vec::new();
    let mut pos: usize = 0;
    while pos <= n
        invariant
            pos <= n + 1,
            n == text@.len(),
            n < usize::MAX,
            lut_entries(text@) =~= acc@ + (if pos <= n {
                entries_rec(text@, pos as int, pos as int)
            } else {
                Seq::<u32>::empty()
            }),
        decreases n + 1 - pos,
    {
        let mut e: usize = pos;
        let mut done = false;
        while !done
            invariant
                pos <= e <= n,
                n == text@.len(),
                forall|x: int| pos <= x < e ==> text@[x] != 10,
                done ==> (e == n || text@[e as int] == 10),
            decreases n - e + (if done { 0int } else { 1int }),
        {
            if e >= n {
                done = true;
            } else if text[e] == 10 {
                done = true;
            } else {
                e = e + 1;
            }
        }
        let mut line: Vec<u8> = Vec::new();
        let mut c = pos;
        while c < e
            invariant
                pos <= c <= e <= n,
                n == text@.len(),
                line@ =~= text@.subrange(pos as int, c as int),
            decreases e - c,
        {
            line.push(text[c]);
            c = c + 1;
        }
        proof {
            assert(line@ =~= text@.subrange(pos as int, e as int));
        }
        let ghost old_acc = acc@;
        match line_value_exec(&line) {
            Some(v) => acc.push(v),
            None => {},
        }
        proof {
            lemma_entries_rec_line(text@, pos as int, e as int);
            assert(acc@ =~= old_acc + line_entry(text@.subrange(pos as int, e as int)));
        }
        pos = e + 1;
    }
    LookUpTable::new_from_vec(&acc)
}

/// The compiled-in table used for an instrument when no external
/// decompanding spec is configured for it.
pub open spec fn builtin_lut_spec(instrument: Instrument) -> Seq<u32> {
    match instrument {
        Instrument::NsytIDC => NSYT_ILT@,
        _ => ILT@,
    }
}

/// Resolves the compiled-in lookup table for an instrument family.
pub fn get_ilt_for_instrument(instrument: Instrument) -> (r: Result<LookUpTable, CalError>)
    ensures
        r matches Ok(t) && t.well_formed() && t.lut@ == builtin_lut_spec(instrument),
{
    match instrument {
        Instrument::NsytIDC => Ok(LookUpTable::new(&NSYT_ILT)),
        _ => Ok(LookUpTable::new(&ILT)),
    }
}

/// An optional text argument viewed as an optional byte sequence.
pub open spec fn opt_text(o: Option<&Vec<u8>>) -> Option<Seq<u8>> {
    match o {
        Some(t) => Some(t@),
        None => None,
    }
}

/// The table the catalog resolves: the parsed external spec when one is
/// configured for the instrument, else the compiled-in default.
pub open spec fn resolved_lut_spec(lut_text: Option<Seq<u8>>, instrument: Instrument) -> Seq<
    u32,
> {
    match lut_text {
        Some(t) => lut_entries(t),
        None => builtin_lut_spec(instrument),
    }
}

/// The decompanding catalog: resolves the lookup table for an instrument,
/// parsing the configured external spec text when one exists and falling
/// back to the compiled-in table otherwise.  Only an external spec with the
/// wrong entry count fails.
pub fn resolve_lut(instrument: Instrument, spec_text: Option<&Vec<u8>>) -> (r: Result<
    LookUpTable,
    CalError,
>)
    requires
        spec_text matches Some(t) ==> t@.len() < usize::MAX,
    ensures
        r is Ok <==> (spec_text matches Some(t) ==> lut_entries(t@).len() == 256),
        r matches Ok(l) ==> l.well_formed() && l.lut@ == resolved_lut_spec(
            opt_text(spec_text),
            instrument,
        ),
        r matches Err(e) ==> e == CalError::InvalidLookupTable,
{
    match spec_text {
        Some(t) => parse_ilut_spec_text(t),
        None => get_ilt_for_instrument(instrument),
    }
}

} // verus!
