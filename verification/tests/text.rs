use pullkit::git::{combined_output, GitOutput};
use pullkit::output::{keep_output, output_line, read_line_bounded, MAX_LINE_BYTES, MAX_READ_OUTPUT};
use pullkit::text::{
    begins_with, blank, blank_text, decimal_text, join_text, lines_of, parse_integer, repeat_text,
    same_text, signed_decimal_text, trim_text, white_space,
};
use pullkit::width::{
    cut_clusters, display_width, fit_to_width, fitting_count, pad_to_width, total_width,
    truncate_to_width,
};
use std::io::{BufRead, BufReader};

/// Reads one line from a reader as a pipe is read: zero bytes at the end.
fn read_line_from(reader: &mut impl BufRead, buffer: &mut Vec<u8>) -> usize {
    loop {
        let available = reader.fill_buf().unwrap();
        let (taken, done) = read_line_bounded(available, buffer);
        reader.consume(taken);
        if done {
            return buffer.len();
        }
    }
}

#[test]
fn splits_a_line_that_never_ends_instead_of_holding_it_whole() {
    // Three times the bound, with no newline anywhere.
    let data = vec![b'x'; MAX_LINE_BYTES * 3];
    let mut reader = BufReader::new(data.as_slice());
    let mut pieces = Vec::new();

    loop {
        let mut buffer = Vec::new();
        let read = read_line_from(&mut reader, &mut buffer);
        if read == 0 {
            break;
        }
        pieces.push(buffer.len());
    }

    assert_eq!(pieces, vec![MAX_LINE_BYTES; 3]);

    // And an ordinary line comes back whole, newline included.
    let mut reader = BufReader::new(&b"one\ntwo"[..]);
    let mut buffer = Vec::new();
    assert_eq!(read_line_from(&mut reader, &mut buffer), 4);
    assert_eq!(buffer, b"one\n");
    buffer.clear();
    assert_eq!(read_line_from(&mut reader, &mut buffer), 3);
    assert_eq!(buffer, b"two");
}

#[test]
fn lines_do_not_depend_on_the_portions_they_come_in() {
    let data = b"first\nsecond line\n\nlast";
    let mut whole = Vec::new();
    for capacity in [1, 2, 3, 7, 100] {
        let mut reader = BufReader::with_capacity(capacity, &data[..]);
        let mut lines = Vec::new();
        loop {
            let mut buffer = Vec::new();
            if read_line_from(&mut reader, &mut buffer) == 0 {
                break;
            }
            lines.push(buffer);
        }
        assert_eq!(lines.concat(), data);
        if whole.is_empty() {
            whole = lines;
        } else {
            assert_eq!(lines, whole);
        }
    }
    assert_eq!(whole.len(), 4);
}

#[test]
fn a_newline_at_the_bound_ends_the_line() {
    let mut data = vec![b'x'; MAX_LINE_BYTES - 1];
    data.push(b'\n');
    data.push(b'y');
    let mut buffer = Vec::new();
    assert_eq!(read_line_bounded(&data, &mut buffer), (MAX_LINE_BYTES, true));
    assert_eq!(buffer.len(), MAX_LINE_BYTES);
    let mut full = vec![b'z'; MAX_LINE_BYTES];
    assert_eq!(read_line_bounded(b"\n", &mut full), (0, true));
}

#[test]
fn a_line_keeps_its_last_progress_frame() {
    assert_eq!(output_line(b"10%\r50%\r100%\n"), "100%");
    assert_eq!(output_line(b"plain\r\n"), "plain");
    assert_eq!(output_line(b"\r\n"), "");
    assert_eq!(output_line("日本\r語".as_bytes()), "語");
    assert_eq!(output_line(b"bad \xff byte"), "bad \u{fffd} byte");
}

#[test]
fn keeps_only_the_first_part_of_an_oversized_read_only_output() {
    // More than the bound, on one pipe, read in portions.
    let written = "y\n".repeat((MAX_READ_OUTPUT + 100_000) / 2).into_bytes();
    let mut kept = Vec::new();
    for portion in written.chunks(8_192) {
        keep_output(&mut kept, portion);
    }
    assert_eq!(kept.len(), MAX_READ_OUTPUT);
    assert!(written.starts_with(&kept));
    let mut small = b"ab".to_vec();
    keep_output(&mut small, b"cd");
    assert_eq!(small, b"abcd");
}

#[test]
fn both_streams_of_a_command_are_put_together_and_trimmed() {
    let output = GitOutput {
        code: Some(1),
        stdout: b"  out \n".to_vec(),
        stderr: b"err\xf0 \n".to_vec(),
    };
    assert_eq!(combined_output(&output), "out \nerr\u{fffd}");
}

#[test]
fn numbers_are_written_as_the_standard_library_writes_them() {
    for n in [0, 7, 10, 99, 100, 65_536, u64::MAX] {
        assert_eq!(decimal_text(n), n.to_string());
    }
    for n in [0, -1, 1, 128, i32::MIN, i32::MAX] {
        assert_eq!(signed_decimal_text(n), n.to_string());
    }
}

#[test]
fn numbers_are_read_as_the_standard_library_reads_them() {
    let samples = [
        "0", "-0", "+0", "12", "-12", "+12", "", "-", "+", "1 ", " 1", "1a", "--1", "٣",
        "9223372036854775807", "9223372036854775808", "-9223372036854775808",
        "-9223372036854775809", "000000000000000000000000001", "99999999999999999999999x",
    ];
    for sample in samples {
        let expected = sample.parse::<i64>();
        match parse_integer(sample) {
            Ok(value) => assert_eq!(Ok(value), expected, "{sample}"),
            Err(error) => {
                let words = expected.expect_err(sample).to_string();
                assert_eq!(error.message(), words, "{sample}");
            }
        }
    }
}

#[test]
fn white_space_and_lines_are_those_of_the_standard_library() {
    for code in 0..=0x10ffff_u32 {
        if let Some(c) = char::from_u32(code) {
            assert_eq!(white_space(c), c.is_whitespace(), "{code:x}");
        }
    }
    for sample in ["", " ", " a b\t", "\u{3000}x\u{85}", "x", "\n\r\n"] {
        assert_eq!(trim_text(sample), sample.trim());
        assert_eq!(blank(sample), sample.trim().is_empty());
    }
    for sample in ["", "a", "a\n", "a\nb", "a\r\nb\r\n", "\n\n", "a\rb\n", "x\r"] {
        let expected: Vec<&str> = sample.lines().collect();
        assert_eq!(lines_of(sample), expected, "{sample:?}");
    }
}

#[test]
fn texts_are_joined_and_compared() {
    assert_eq!(join_text(&vec!["a".into(), "b".into(), "".into()], ", "), "a, b, ");
    assert_eq!(join_text(&Vec::new(), ", "), "");
    assert_eq!(repeat_text("ab".get(0..1).unwrap(), 3), "aaa");
    assert_eq!(blank_text(2), "  ");
    assert!(begins_with("ERROR x", "ERROR "));
    assert!(!begins_with("ERR", "ERROR "));
    assert!(same_text("日", "日") && !same_text("日", "本"));
}

#[test]
fn display_width_counts_an_emoji_sequence_as_one_pair_of_columns() {
    assert_eq!(display_width("repo"), 4);
    assert_eq!(display_width("日本語"), 6);
    assert_eq!(display_width("👍"), 2);
    assert_eq!(display_width("👍🏽"), 2, "an emoji with a skin tone");
    assert_eq!(
        display_width("👨‍👩‍👧‍👦"),
        2,
        "a family joined with zero width joiners"
    );
    assert_eq!(
        display_width("❤️"),
        2,
        "an emoji written with a variation selector"
    );
    assert_eq!(
        display_width("🇯🇵"),
        2,
        "a flag built from regional indicators"
    );
    assert_eq!(display_width("🚀 deploy 日本"), 14);
}

#[test]
fn truncation_never_splits_an_emoji() {
    let family = "👨‍👩‍👧‍👦";
    let text = format!("{family}{family}");

    // Three columns hold one two column emoji and no half of another.
    let kept = truncate_to_width(&text, 3);

    assert_eq!(kept, family);
    assert_eq!(display_width(&kept), 2);
    // A single column cannot hold it at all, and half of it is not a thing
    // the terminal can draw.
    assert_eq!(truncate_to_width(&text, 1), "");
}

#[test]
fn padding_fills_the_columns_a_wide_name_leaves() {
    let wide = fit_to_width("日本語", 10);
    let narrow = fit_to_width("repo", 10);
    let overlong = fit_to_width("日本語リポジトリ", 7);
    let unbounded = pad_to_width("日本語リポジトリ", 7);

    // Every field ends at the same column whatever it holds.
    assert_eq!(display_width(&wide), 10);
    assert_eq!(display_width(&narrow), 10);
    assert_eq!(
        display_width(&overlong),
        7,
        "an odd width leaves one column"
    );
    assert_eq!(overlong, "日本語 ");
    // Padding alone leaves a value that outgrows its column whole, for the
    // outputs that have no width to keep it inside.
    assert_eq!(unbounded, "日本語リポジトリ");
}

#[test]
fn plain_texts_are_as_wide_as_they_are_long() {
    let plain = "abc ~!";
    assert_eq!(display_width(plain), 6);
    assert_eq!(truncate_to_width(plain, 4), "abc ");
    assert_eq!(truncate_to_width(plain, 9), plain);
    assert_eq!(pad_to_width(plain, 8), "abc ~!  ");
}

#[test]
fn clusters_are_kept_while_their_columns_fit() {
    let parts: Vec<String> = ["日", "a", "本", "b"].map(String::from).into_iter().collect();
    let widths = vec![2, 1, 2, 1];
    assert_eq!(total_width(&widths), 6);
    assert_eq!(total_width(&vec![usize::MAX, 1]), usize::MAX);
    assert_eq!(total_width(&Vec::new()), 0);
    for (width, count, kept) in [(0, 0, ""), (1, 0, ""), (2, 1, "日"), (4, 2, "日a"), (5, 3, "日a本"), (9, 4, "日a本b")] {
        assert_eq!(fitting_count(&widths, width), count);
        assert_eq!(cut_clusters(&parts, &widths, width), kept);
        assert_eq!(truncate_to_width("日a本b", width), kept);
    }
    // What follows the first that does not fit is left out, though it would fit.
    assert_eq!(fitting_count(&vec![1, 3, 0], 2), 1);
}

#[test]
fn a_fitted_field_is_exactly_as_wide_as_asked() {
    for text in [
        "",
        "repo",
        "日本語リポジトリ",
        "👨‍👩‍👧‍👦 x",
        "e\u{301}",
        "\u{600}",
        "\u{301} x",
        "#\u{fe0f}",
        "🇯🇵🇯",
    ] {
        for width in 0..12 {
            let field = fit_to_width(text, width);
            assert_eq!(display_width(&field), width, "{text} {width}");
            let kept = truncate_to_width(text, width);
            assert!(text.starts_with(&kept) && display_width(&kept) <= width);
        }
    }
}
