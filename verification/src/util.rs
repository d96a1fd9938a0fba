//! Output-name construction and the filename-convention instrument
//! heuristic.

use vstd::prelude::*;

use crate::enums::Instrument;

verus! {

/// The index where a path's base name starts: just after the last slash,
/// or 0 when the path has none.
pub open spec fn after_last_slash(s: Seq<char>) -> int
    decreases s.len(),
{
    if s.len() == 0 {
        0
    } else if s.last() == '/' {
        s.len() as int
    } else {
        after_last_slash(s.drop_last())
    }
}

/// The base name's character at `pos`, if the base name is that long.
pub open spec fn basename_char(s: Seq<char>, pos: int) -> Option<char> {
    let b = after_last_slash(s);
    if b + pos < s.len() {
        Some(s[b + pos])
    } else {
        None
    }
}

/// The base name's character at `pos` of a path, or nothing when the base
/// name is shorter.
pub fn filename_char_at_pos(file: &str, pos: usize) -> (r: Option<char>)
    ensures
        r == basename_char(file@, pos as int),
{
    let n = file.unicode_len();
    let mut i: usize = 0;
    let mut b: usize = 0;
    while i < n
        invariant
            i <= n,
            n == file@.len(),
            b == after_last_slash(file@.take(i as int)),
            b <= i,
        decreases n - i,
    {
        let c = file.get_char(i);
        proof {
            assert(file@.take(i + 1 as int).drop_last() =~= file@.take(i as int));
            assert(file@.take(i + 1 as int).last() == file@[i as int]);
        }
        if c == '/' {
            b = i + 1;
        }
        i = i + 1;
    }
    proof {
        assert(file@.take(n as int) =~= file@);
    }
    if pos < n - b {
        Some(file.get_char(b + pos))
    } else {
        None
    }
}

/// Where the stem of a path ends, scanning from `i` leftwards: at the last
/// dot of the base name, or at the path's end when the base name has no dot.
pub open spec fn stem_end_from(s: Seq<char>, i: int) -> int
    decreases i,
{
    if i <= 0 {
        s.len() as int
    } else if s[i - 1] == '.' {
        i - 1
    } else if s[i - 1] == '/' {
        s.len() as int
    } else {
        stem_end_from(s, i - 1)
    }
}

/// The output name formed from an input path and a configured suffix: the
/// input's stem, a dash, the suffix, and the fixed output extension.
pub open spec fn out_name_spec(inp: Seq<char>, suffix: Seq<char>) -> Seq<char> {
    inp.subrange(0, stem_end_from(inp, inp.len() as int)) + "-"@ + suffix + ".png"@
}

/// Builds the output path for an input path: the extension (if any) is cut,
/// then a dash, the configured suffix and the fixed output extension follow.
pub fn append_file_name(input_file: &str, suffix: &str) -> (r: String)
    ensures
        r@ == out_name_spec(input_file@, suffix@),
{
    let n = input_file.unicode_len();
    let mut i: usize = n;
    let mut k: usize = n;
    let mut done = false;
    while !done
        invariant
            i <= n,
            n == input_file@.len(),
            stem_end_from(input_file@, n as int) == stem_end_from(input_file@, i as int),
            done ==> k == stem_end_from(input_file@, n as int) && k <= n,
        decreases i + (if done { 0int } else { 1int }),
    {
        if i == 0 {
            k = n;
            done = true;
        } else {
            let c = input_file.get_char(i - 1);
            if c == '.' {
                k = i - 1;
                done = true;
            } else if c == '/' {
                k = n;
                done = true;
            } else {
                i = i - 1;
            }
        }
    }
    let stem = input_file.substring_char(0, k);
    let mut out = String::new();
    out.append(stem);
    out.append("-");
    out.append(suffix);
    out.append(".png");
    proof {
        assert(out@ =~= out_name_spec(input_file@, suffix@));
    }
    out
}

/// The instrument encoded by the base name's leading characters: `N`, `F`
/// and `R` select the navigation, front hazard and rear hazard families, a
/// second character `L` selects the left eye.  The mapping is total; an
/// inconclusive name falls back to the right navigation camera.
pub open spec fn m20_instrument_from_file(s: Seq<char>) -> Instrument {
    let c0 = basename_char(s, 0);
    let c1 = basename_char(s, 1);
    if c0 == Some('N') {
        if c1 == Some('L') {
            Instrument::M20NavcamLeft
        } else {
            Instrument::M20NavcamRight
        }
    } else if c0 == Some('F') {
        if c1 == Some('L') {
            Instrument::M20FrontHazLeft
        } else {
            Instrument::M20FrontHazRight
        }
    } else if c0 == Some('R') {
        if c1 == Some('L') {
            Instrument::M20RearHazLeft
        } else {
            Instrument::M20RearHazRight
        }
    } else {
        Instrument::M20NavcamRight
    }
}

/// Resolves the concrete camera variant from the input's base name.
pub fn infer_m20_instrument(file: &str) -> (r: Instrument)
    ensures
        r == m20_instrument_from_file(file@),
{
    let c0 = filename_char_at_pos(file, 0);
    let c1 = filename_char_at_pos(file, 1);
    let left = match c1 {
        Some(c) => c == 'L',
        None => false,
    };
    match c0 {
        Some(c) => {
            if c == 'N' {
                if left {
                    Instrument::M20NavcamLeft
                } else {
                    Instrument::M20NavcamRight
                }
            } else if c == 'F' {
                if left {
                    Instrument::M20FrontHazLeft
                } else {
                    Instrument::M20FrontHazRight
                }
            } else if c == 'R' {
                if left {
                    Instrument::M20RearHazLeft
                } else {
                    Instrument::M20RearHazRight
                }
            } else {
                Instrument::M20NavcamRight
            }
        },
        None => Instrument::M20NavcamRight,
    }
}

} // verus!
