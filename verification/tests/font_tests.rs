use slide_generator::font::{parsed_or_invalid, resolve_font, FontResolutionError, FontSource};

fn push_u16(bytes: &mut Vec<u8>, value: u16) {
    bytes.extend_from_slice(&value.to_be_bytes());
}

fn push_u32(bytes: &mut Vec<u8>, value: u32) {
    bytes.extend_from_slice(&value.to_be_bytes());
}

fn push_record(bytes: &mut Vec<u8>, tag: &str, offset: u32, length: u32) {
    bytes.extend_from_slice(tag.as_bytes());
    push_u32(bytes, 0);
    push_u32(bytes, offset);
    push_u32(bytes, length);
}

/// The smallest font that parses: a header and the three mandatory tables.
fn smallest_font() -> Vec<u8> {
    let mut bytes = Vec::new();
    push_u32(&mut bytes, 0x0001_0000);
    push_u16(&mut bytes, 3);
    push_u16(&mut bytes, 0);
    push_u16(&mut bytes, 0);
    push_u16(&mut bytes, 0);
    push_record(&mut bytes, "head", 60, 54);
    push_record(&mut bytes, "hhea", 114, 36);
    push_record(&mut bytes, "maxp", 150, 6);
    assert_eq!(bytes.len(), 60);
    // head
    let mut head = vec![0u8; 54];
    head[0] = 0;
    head[1] = 1;
    head[18] = 0x03;
    head[19] = 0xE8;
    bytes.extend_from_slice(&head);
    // hhea
    let mut hhea = vec![0u8; 36];
    hhea[1] = 1;
    hhea[4] = 0x03;
    hhea[5] = 0x20;
    hhea[6] = 0xFF;
    hhea[7] = 0x38;
    hhea[35] = 1;
    bytes.extend_from_slice(&hhea);
    // maxp
    push_u32(&mut bytes, 0x0000_5000);
    push_u16(&mut bytes, 1);
    assert_eq!(bytes.len(), 156);
    bytes
}

#[test]
fn missing_font_is_reported() {
    assert_eq!(resolve_font(FontSource::NotFound).unwrap_err(), FontResolutionError::NoSerifFont);
}

#[test]
fn unreadable_font_is_reported() {
    assert_eq!(resolve_font(FontSource::Unreadable).unwrap_err(), FontResolutionError::UnreadableFont);
}

#[test]
fn invalid_bytes_are_reported() {
    assert_eq!(
        resolve_font(FontSource::Data(Vec::new())).unwrap_err(),
        FontResolutionError::InvalidFontData
    );
    assert_eq!(
        resolve_font(FontSource::Data(b"this is no font at all".to_vec())).unwrap_err(),
        FontResolutionError::InvalidFontData
    );
    let mut cut = smallest_font();
    cut.truncate(120);
    assert_eq!(resolve_font(FontSource::Data(cut)).unwrap_err(), FontResolutionError::InvalidFontData);
}

#[test]
fn valid_bytes_give_a_font() {
    let font = resolve_font(FontSource::Data(smallest_font())).unwrap();
    assert_eq!(font.units_per_em(), 1000);
    assert_eq!(font.glyph_count(), 1);
}

#[test]
fn parse_outcome_maps_to_result() {
    assert_eq!(parsed_or_invalid(None).unwrap_err(), FontResolutionError::InvalidFontData);
    let font = rusttype::Font::try_from_vec(smallest_font());
    assert!(font.is_some());
    assert!(parsed_or_invalid(font).is_ok());
}
