use clap_stdin::text::{lines, split, trim};

const SAMPLES: [&str; 28] = [
    "",
    " ",
    "a",
    " a",
    "a ",
    "  a b  ",
    "\n",
    "\r\n",
    "a\n",
    "a\r\n",
    "a\r",
    "a\nb",
    "a\n\nb",
    "a\r\nb\r\n",
    "a\r\r\nb",
    "\ra\n",
    "a\n\r",
    "a,b,c",
    ",",
    ",,",
    "a,,b",
    ",a,",
    "\u{a0}x\u{3000}",
    "\u{2003}\u{2028}",
    "x\u{200b}",
    "\t tabs\t\n",
    "banana\napple\n",
    "наука, 越 , é\n",
];

fn strings(items: &[&str]) -> Vec<String> {
    items.iter().map(|item| item.to_string()).collect()
}

#[test]
fn trim_removes_white_space_at_both_ends() {
    assert_eq!(trim("  a b \n"), "a b");
    assert_eq!(trim("42\n"), "42");
    assert_eq!(trim("\t\r\n x"), "x");
    assert_eq!(trim("x"), "x");
    assert_eq!(trim(""), "");
    assert_eq!(trim(" \n\t "), "");
    assert_eq!(trim("\u{a0}x\u{3000}"), "x");
    assert_eq!(trim("x\u{200b}"), "x\u{200b}");
}

#[test]
fn trim_keeps_every_character_between() {
    assert_eq!(trim(" héllo, wörld 越\n"), "héllo, wörld 越");
    assert_eq!(trim("a\u{a0}\tb"), "a\u{a0}\tb");
}

#[test]
fn trim_agrees_with_std() {
    for sample in SAMPLES {
        assert_eq!(trim(sample), sample.trim(), "sample {:?}", sample);
    }
}

#[test]
fn split_cuts_at_each_delimiter() {
    assert_eq!(split("a,b,c", ','), strings(&["a", "b", "c"]));
    assert_eq!(split("a-b-c", '-'), strings(&["a", "b", "c"]));
    assert_eq!(split("abc", ','), strings(&["abc"]));
    assert_eq!(split("", ','), strings(&[""]));
    assert_eq!(split(",", ','), strings(&["", ""]));
    assert_eq!(split("a,,b", ','), strings(&["a", "", "b"]));
    assert_eq!(split(",a,", ','), strings(&["", "a", ""]));
    assert_eq!(split("a, b", ','), strings(&["a", " b"]));
    assert_eq!(split("é越é", '越'), strings(&["é", "é"]));
}

#[test]
fn split_agrees_with_std() {
    for sample in SAMPLES {
        for delimiter in [',', '-', '\n', ' ', 'a', '越'] {
            let expected: Vec<String> = sample.split(delimiter).map(String::from).collect();
            assert_eq!(split(sample, delimiter), expected, "sample {:?}", sample);
        }
    }
}

#[test]
fn lines_end_at_line_feeds() {
    assert_eq!(lines("a\nb\nc\n"), strings(&["a", "b", "c"]));
    assert_eq!(lines("a\nb\nc"), strings(&["a", "b", "c"]));
    assert_eq!(lines("banana\napple\n"), strings(&["banana", "apple"]));
    assert_eq!(lines(""), Vec::<String>::new());
    assert_eq!(lines("\n"), strings(&[""]));
    assert_eq!(lines("a\n\nb"), strings(&["a", "", "b"]));
    assert_eq!(lines("a\n\n"), strings(&["a", ""]));
}

#[test]
fn lines_drop_a_carriage_return_before_the_line_feed() {
    assert_eq!(lines("a\r\nb\r\n"), strings(&["a", "b"]));
    assert_eq!(lines("a\r\r\nb"), strings(&["a\r", "b"]));
    assert_eq!(lines("a\rb\n"), strings(&["a\rb"]));
    assert_eq!(lines("\r\n"), strings(&[""]));
    assert_eq!(lines("a\r"), strings(&["a\r"]));
    assert_eq!(lines("a\n\r"), strings(&["a", "\r"]));
}

#[test]
fn lines_agree_with_std() {
    for sample in SAMPLES {
        let expected: Vec<String> = sample.lines().map(String::from).collect();
        assert_eq!(lines(sample), expected, "sample {:?}", sample);
    }
}
