use marscal::decompanding::{
    get_ilt_for_instrument, line_value_exec, parse_ilut_spec_text, resolve_lut, LookUpTable, ILT,
    LUT2, NSYT_ILT,
};
use marscal::enums::Instrument;
use marscal::error::CalError;

#[test]
fn lut_from_vec_of_256_succeeds_and_max_is_last() {
    let v: Vec<u32> = (0..256u32).map(|i| i * 3 + 1).collect();
    let lut = LookUpTable::new_from_vec(&v).unwrap();
    assert_eq!(lut.max(), 255 * 3 + 1);
    assert_eq!(lut.lut, v);
}

#[test]
fn lut_from_vec_of_wrong_length_fails() {
    let short: Vec<u32> = vec![0; 255];
    let long: Vec<u32> = vec![0; 257];
    let empty: Vec<u32> = vec![];
    assert_eq!(
        LookUpTable::new_from_vec(&short).unwrap_err(),
        CalError::InvalidLookupTable
    );
    assert_eq!(
        LookUpTable::new_from_vec(&long).unwrap_err(),
        CalError::InvalidLookupTable
    );
    assert_eq!(
        LookUpTable::new_from_vec(&empty).unwrap_err(),
        CalError::InvalidLookupTable
    );
}

#[test]
fn lut_new_and_to_array_round_trip() {
    let lut = LookUpTable::new(&ILT);
    assert_eq!(lut.max(), 2033);
    let arr = lut.to_array();
    assert_eq!(arr, ILT);
}

#[test]
fn builtin_tables_resolve_per_instrument() {
    let m20 = get_ilt_for_instrument(Instrument::M20NavcamLeft).unwrap();
    assert_eq!(m20.lut.as_slice(), ILT.as_slice());
    assert_eq!(m20.max(), 2033);
    let nsyt = get_ilt_for_instrument(Instrument::NsytIDC).unwrap();
    assert_eq!(nsyt.lut.as_slice(), NSYT_ILT.as_slice());
    assert_eq!(nsyt.max(), 4095);
    assert_eq!(LUT2[255], 4095);
}

#[test]
fn parse_spec_text_with_noise_lines() {
    let mut text: Vec<u8> = Vec::new();
    text.extend_from_slice(b"VICAR LABEL junk\n");
    for i in 0..256u32 {
        if i == 100 {
            text.extend_from_slice(b"embedded binary-ish noise\n");
        }
        text.extend_from_slice(format!("{} {}\n", i, i * 2 + 5).as_bytes());
    }
    text.extend_from_slice(b"trailing words\n");
    let lut = parse_ilut_spec_text(&text).unwrap();
    for i in 0..256u32 {
        assert_eq!(lut.lut[i as usize], i * 2 + 5);
    }
    assert_eq!(lut.max(), 255 * 2 + 5);
}

#[test]
fn parse_spec_text_wrong_count_fails() {
    let mut text: Vec<u8> = Vec::new();
    for i in 0..255u32 {
        text.extend_from_slice(format!("{} {}\n", i, i).as_bytes());
    }
    assert_eq!(
        parse_ilut_spec_text(&text).unwrap_err(),
        CalError::InvalidLookupTable
    );
    let none = b"no table lines at all".to_vec();
    assert_eq!(
        parse_ilut_spec_text(&none).unwrap_err(),
        CalError::InvalidLookupTable
    );
}

#[test]
fn parse_overflowing_second_token_reads_zero() {
    let mut text: Vec<u8> = Vec::new();
    text.extend_from_slice(b"0 99999999999999999999\n");
    for i in 1..256u32 {
        text.extend_from_slice(format!("{} {}\n", i, i).as_bytes());
    }
    let lut = parse_ilut_spec_text(&text).unwrap();
    assert_eq!(lut.lut[0], 0);
    assert_eq!(lut.lut[1], 1);
}

#[test]
fn line_matching_takes_second_integer_of_leftmost_match() {
    assert_eq!(line_value_exec(&b"123 456".to_vec()), Some(456));
    assert_eq!(line_value_exec(&b"abc12 34xy".to_vec()), Some(34));
    assert_eq!(line_value_exec(&b"7 8 9".to_vec()), Some(8));
    assert_eq!(line_value_exec(&b"12a34 56".to_vec()), Some(56));
    assert_eq!(line_value_exec(&b"no digits here".to_vec()), None);
    assert_eq!(line_value_exec(&b"12 x".to_vec()), None);
    assert_eq!(line_value_exec(&b"12x 3".to_vec()), None);
    assert_eq!(line_value_exec(&b"".to_vec()), None);
    assert_eq!(line_value_exec(&b"4294967295 4294967295".to_vec()), Some(4294967295));
    assert_eq!(line_value_exec(&b"1 4294967296".to_vec()), Some(0));
}

#[test]
fn catalog_prefers_configured_spec_over_builtin() {
    let mut text: Vec<u8> = Vec::new();
    for i in 0..256u32 {
        text.extend_from_slice(format!("{} {}\n", i, i + 7).as_bytes());
    }
    let parsed = resolve_lut(Instrument::M20NavcamLeft, Some(&text)).unwrap();
    assert_eq!(parsed.lut[0], 7);
    assert_eq!(parsed.max(), 255 + 7);
    let builtin = resolve_lut(Instrument::M20NavcamLeft, None).unwrap();
    assert_eq!(builtin.lut.as_slice(), ILT.as_slice());
    let bad = b"1 2\n".to_vec();
    assert_eq!(
        resolve_lut(Instrument::M20NavcamLeft, Some(&bad)).unwrap_err(),
        CalError::InvalidLookupTable
    );
}
