use aiden::agent::OpenAiAgent;
use aiden::embed::text_loader::TextLoader;
use aiden::extract::clean_text;
use aiden::models::flate::to_lower_hex;
use aiden::storage::file_contents::{FileContentRecord, FileContentRecords};
use aiden::text::{chars_of, decimal_i64, decimal_u64, is_space, join_trimmed_lines, quote, string_of};

const WHITE_SPACE: [u32; 25] = [
    0x9, 0xa, 0xb, 0xc, 0xd, 0x20, 0x85, 0xa0, 0x1680, 0x2000, 0x2001, 0x2002, 0x2003, 0x2004, 0x2005,
    0x2006, 0x2007, 0x2008, 0x2009, 0x200a, 0x2028, 0x2029, 0x202f, 0x205f, 0x3000,
];

#[test]
fn white_space_is_the_unicode_property() {
    let mut probe = String::new();
    for code in 0..=0x10ffffu32 {
        if let Some(c) = char::from_u32(code) {
            probe.clear();
            probe.push('x');
            probe.push(c);
            let trimmed = join_trimmed_lines(&probe) == "x";
            assert_eq!(trimmed, c.is_whitespace(), "code point {:x}", code);
            assert_eq!(is_space(c), c.is_whitespace(), "code point {:x}", code);
            assert_eq!(is_space(c), WHITE_SPACE.contains(&code), "code point {:x}", code);
        }
    }
}

#[test]
fn cleaning_trims_both_ends_by_the_same_white_space() {
    for code in WHITE_SPACE {
        let c = char::from_u32(code).unwrap();
        if c == '\n' {
            continue;
        }
        let text = format!("{}{}body{}{}", c, c, c, c);
        assert_eq!(clean_text(&text), "body", "code point {:x}", code);
    }
    assert_eq!(clean_text(&"a\r\n\r\nb".to_string()), "a\r\n\r\nb");
    assert_eq!(clean_text(&"a\n\n\n\n\nb\nc\n\nd".to_string()), "a\nb\nc\nd");
    assert_eq!(clean_text(&"\n\nx\n\n".to_string()), "x");
}

#[test]
fn decimal_agrees_with_the_standard_rendering() {
    let mut n: u64 = 1;
    for _ in 0..64 {
        for value in [n - 1, n, n + 1] {
            assert_eq!(decimal_u64(value), value.to_string());
            let signed = value as i64;
            assert_eq!(decimal_i64(signed), signed.to_string());
            assert_eq!(decimal_i64(signed.wrapping_neg()), signed.wrapping_neg().to_string());
        }
        n = n.wrapping_mul(2);
    }
    for value in [9u64, 10, 11, 99, 100, 101, 999_999_999, 1_000_000_000] {
        assert_eq!(decimal_u64(value), value.to_string());
    }
}

#[test]
fn hex_agrees_with_the_standard_rendering() {
    for b in 0..=255u8 {
        assert_eq!(to_lower_hex(&[b]), format!("{:02x}", b));
    }
    assert_eq!(to_lower_hex(&[0xde, 0xad, 0xbe, 0xef]), "deadbeef");
}

#[test]
fn quoting_doubles_exactly_the_quotes() {
    for text in ["", "'", "a'", "'a", "a''b", "no quotes", "\"double\"", "路径'名"] {
        assert_eq!(quote(text), format!("'{}'", text.replace('\'', "''")));
    }
}

fn reference_unwrap(text: &str) -> String {
    text.replace("\n\n", "{{DOUBLE_NEWLINE}}").replace('\n', " ").replace("{{DOUBLE_NEWLINE}}", "\n\n")
}

#[test]
fn preparing_a_text_keeps_paragraph_breaks_only() {
    for text in ["a\nb", "a\n\nb", "a\n\n\nb", "\n", "\n\n", "\n\n\n\n", "x\ny\n\nz\n", "{{DOUBLE_NEWLINE}}"] {
        assert_eq!(TextLoader::split_into_chunks(text), Some(reference_unwrap(text)), "{:?}", text);
    }
}

#[test]
fn passages_are_joined_with_line_feeds_between_them() {
    let agent = OpenAiAgent::new("u", "k");
    for count in 0..5usize {
        let texts: Vec<String> = (0..count).map(|i| format!("t{}", i)).collect();
        let records = FileContentRecords(
            texts
                .iter()
                .map(|t| FileContentRecord {
                    file_path: "p".to_string(),
                    text: t.clone(),
                    embedding: vec![],
                    add_time: 0,
                })
                .collect(),
        );
        let request = agent.query("q", &records);
        assert_eq!(request.preamble, format!("{}{}", aiden::agent::PREAMBLE, texts.join("\n")));
    }
}

#[test]
fn a_text_and_its_characters_convert_both_ways() {
    for text in ["", "a", "héllo", "路径 名\n", "\u{1F600} x"] {
        let chars = chars_of(text);
        assert_eq!(chars, text.chars().collect::<Vec<char>>());
        assert_eq!(string_of(&chars), text);
    }
}
