use neutrino_tau::neutrino_label::{parse_label_line, Label};

const EXAMPLE_LINE: &str = "p@xx^xx-pau+r=a_xx%xx^00_00~00-1!1[xx$xx]xx/A:xx-xx-xx@xx~xx/B:1_1_1@xx|xx/C:2+1+1@JPN&0/D:xx!xx#xx$xx%xx|xx&xx;xx-xx/E:xx]xx^0=4/4~100!1@240#96+xx]1$1|0[24&0]96=0^100~xx#xx_xx;xx$xx&xx%xx[xx|0]0-n^xx+xx~xx=xx@xx$xx!xx%xx#xx|xx|xx-xx&xx&xx+xx[xx;xx]xx;xx~xx~xx^xx^xx@xx[xx#xx=xx!xx~xx+xx!xx^xx/F:C5#0#0-4/4$100$1+60%24;xx/G:xx_xx/H:xx_xx/I:8_8/J:2~2@1";

const MANY_LINES: [&str; 18] = [
    "p@xx^xx-pau+r=a_xx%xx^00_00~00-1!1[xx$xx]xx/A:xx-xx-xx@xx~xx/B:1_1_1@xx|xx/C:2+1+1@JPN&0/D:xx!xx#xx$xx%xx|xx&xx;xx-xx/E:xx]xx^0=4/4~100!1@240#96+xx]1$1|0[24&0]96=0^100~xx#xx_xx;xx$xx&xx%xx[xx|0]0-n^xx+xx~xx=xx@xx$xx!xx%xx#xx|xx|xx-xx&xx&xx+xx[xx;xx]xx;xx~xx~xx^xx^xx@xx[xx#xx=xx!xx~xx+xx!xx^xx/F:C5#0#0-4/4$100$1+60%24;xx/G:xx_xx/H:xx_xx/I:8_8/J:2~2@1",
    "c@xx^pau-r+a=r_xx%00^00_00~00-1!2[xx$1]xx/A:xx-xx-xx@xx~xx/B:2_1_1@JPN|0/C:2+1+1@JPN&0/D:xx!xx#xx$xx%xx|xx&xx;xx-xx/E:C5]0^0=4/4~100!1@60#24+xx]1$4|0[24&0]96=0^100~1#8_0;48$0&192%0[100|0]0-n^xx+xx~xx=xx@xx$xx!xx%xx#xx|xx|xx-xx&xx&xx+xx[xx;xx]xx;xx~xx~xx^xx^xx@xx[xx#xx=xx!xx~xx+p2!xx^xx/F:D5#2#0-4/4$100$1+60%24;xx/G:xx_xx/H:8_8/I:xx_xx/J:2~2@1",
    "v@pau^r-a+r=a_00%00^00_00~00-2!1[xx$xx]xx/A:xx-xx-xx@xx~xx/B:2_1_1@JPN|0/C:2+1+1@JPN&0/D:xx!xx#xx$xx%xx|xx&xx;xx-xx/E:C5]0^0=4/4~100!1@60#24+xx]1$4|0[24&0]96=0^100~1#8_0;48$0&192%0[100|0]0-n^xx+xx~xx=xx@xx$xx!xx%xx#xx|xx|xx-xx&xx&xx+xx[xx;xx]xx;xx~xx~xx^xx^xx@xx[xx#xx=xx!xx~xx+p2!xx^xx/F:D5#2#0-4/4$100$1+60%24;xx/G:xx_xx/H:8_8/I:xx_xx/J:2~2@1",
    "c@r^a-r+a=r_00%00^00_00~00-1!2[xx$1]xx/A:2-1-1@JPN~0/B:2_1_1@JPN|0/C:2+1+1@JPN&0/D:C5!0#0$4/4%100|1&60;24-xx/E:D5]2^0=4/4~100!1@60#24+xx]2$3|6[18&24]72=25^75~2#7_6;42$24&168%12[88|0]0-n^xx+xx~xx=xx@xx$xx!xx%xx#xx|xx|xx-xx&xx&xx+xx[xx;xx]xx;xx~xx~xx^xx^xx@xx[xx#xx=xx!xx~m2+p2!xx^xx/F:E5#4#0-4/4$100$1+60%24;xx/G:xx_xx/H:8_8/I:xx_xx/J:2~2@1",
    "v@a^r-a+r=a_00%00^00_00~00-2!1[xx$xx]xx/A:2-1-1@JPN~0/B:2_1_1@JPN|0/C:2+1+1@JPN&0/D:C5!0#0$4/4%100|1&60;24-xx/E:D5]2^0=4/4~100!1@60#24+xx]2$3|6[18&24]72=25^75~2#7_6;42$24&168%12[88|0]0-n^xx+xx~xx=xx@xx$xx!xx%xx#xx|xx|xx-xx&xx&xx+xx[xx;xx]xx;xx~xx~xx^xx^xx@xx[xx#xx=xx!xx~m2+p2!xx^xx/F:E5#4#0-4/4$100$1+60%24;xx/G:xx_xx/H:8_8/I:xx_xx/J:2~2@1",
    "c@r^a-r+a=r_00%00^00_00~00-1!2[xx$1]xx/A:2-1-1@JPN~0/B:2_1_1@JPN|0/C:2+1+1@JPN&0/D:D5!2#0$4/4%100|1&60;24-xx/E:E5]4^0=4/4~100!1@60#24+xx]3$2|12[12&48]48=50^50~3#6_12;36$48&144%25[75|0]0-n^xx+xx~xx=xx@xx$xx!xx%xx#xx|xx|xx-xx&xx&xx+xx[xx;xx]xx;xx~xx~xx^xx^xx@xx[xx#xx=xx!xx~m2+p1!xx^xx/F:F5#5#0-4/4$100$1+60%24;xx/G:xx_xx/H:8_8/I:xx_xx/J:2~2@1",
    "v@a^r-a+r=a_00%00^00_00~00-2!1[xx$xx]xx/A:2-1-1@JPN~0/B:2_1_1@JPN|0/C:2+1+1@JPN&0/D:D5!2#0$4/4%100|1&60;24-xx/E:E5]4^0=4/4~100!1@60#24+xx]3$2|12[12&48]48=50^50~3#6_12;36$48&144%25[75|0]0-n^xx+xx~xx=xx@xx$xx!xx%xx#xx|xx|xx-xx&xx&xx+xx[xx;xx]xx;xx~xx~xx^xx^xx@xx[xx#xx=xx!xx~m2+p1!xx^xx/F:F5#5#0-4/4$100$1+60%24;xx/G:xx_xx/H:8_8/I:xx_xx/J:2~2@1",
    "c@r^a-r+a=r_00%00^00_00~00-1!2[xx$1]xx/A:2-1-1@JPN~0/B:2_1_1@JPN|0/C:2+1+1@JPN&0/D:E5!4#0$4/4%100|1&60;24-xx/E:F5]5^0=4/4~100!1@60#24+xx]4$1|18[6&72]24=74^26~4#5_18;30$72&120%37[63|0]0-n^xx+xx~xx=xx@xx$xx!xx%xx#xx|xx|xx-xx&xx&xx+xx[xx;xx]xx;xx~xx~xx^xx^xx@xx[xx#xx=xx!xx~m1+p2!xx^xx/F:G5#7#0-4/4$100$1+60%24;xx/G:xx_xx/H:8_8/I:xx_xx/J:2~2@1",
    "v@a^r-a+r=a_00%00^00_00~00-2!1[xx$xx]xx/A:2-1-1@JPN~0/B:2_1_1@JPN|0/C:2+1+1@JPN&0/D:E5!4#0$4/4%100|1&60;24-xx/E:F5]5^0=4/4~100!1@60#24+xx]4$1|18[6&72]24=74^26~4#5_18;30$72&120%37[63|0]0-n^xx+xx~xx=xx@xx$xx!xx%xx#xx|xx|xx-xx&xx&xx+xx[xx;xx]xx;xx~xx~xx^xx^xx@xx[xx#xx=xx!xx~m1+p2!xx^xx/F:G5#7#0-4/4$100$1+60%24;xx/G:xx_xx/H:8_8/I:xx_xx/J:2~2@1",
    "c@r^a-r+a=r_00%00^00_00~00-1!2[xx$1]xx/A:2-1-1@JPN~0/B:2_1_1@JPN|0/C:2+1+1@JPN&0/D:F5!5#0$4/4%100|1&60;24-xx/E:G5]7^0=4/4~100!1@60#24+xx]1$4|0[24&0]96=0^100~5#4_24;24$96&96%50[50|0]0-n^xx+xx~xx=xx@xx$xx!xx%xx#xx|xx|xx-xx&xx&xx+xx[xx;xx]xx;xx~xx~xx^xx^xx@xx[xx#xx=xx!xx~m2+p2!xx^xx/F:A5#9#0-4/4$100$1+60%24;xx/G:xx_xx/H:8_8/I:xx_xx/J:2~2@1",
    "v@a^r-a+r=a_00%00^00_00~00-2!1[xx$xx]xx/A:2-1-1@JPN~0/B:2_1_1@JPN|0/C:2+1+1@JPN&0/D:F5!5#0$4/4%100|1&60;24-xx/E:G5]7^0=4/4~100!1@60#24+xx]1$4|0[24&0]96=0^100~5#4_24;24$96&96%50[50|0]0-n^xx+xx~xx=xx@xx$xx!xx%xx#xx|xx|xx-xx&xx&xx+xx[xx;xx]xx;xx~xx~xx^xx^xx@xx[xx#xx=xx!xx~m2+p2!xx^xx/F:A5#9#0-4/4$100$1+60%24;xx/G:xx_xx/H:8_8/I:xx_xx/J:2~2@1",
    "c@r^a-r+a=r_00%00^00_00~00-1!2[xx$1]xx/A:2-1-1@JPN~0/B:2_1_1@JPN|0/C:2+1+1@JPN&0/D:G5!7#0$4/4%100|1&60;24-xx/E:A5]9^0=4/4~100!1@60#24+xx]2$3|6[18&24]72=25^75~6#3_30;18$120&72%62[38|0]0-n^xx+xx~xx=xx@xx$xx!xx%xx#xx|xx|xx-xx&xx&xx+xx[xx;xx]xx;xx~xx~xx^xx^xx@xx[xx#xx=xx!xx~m2+p2!xx^xx/F:B5#11#0-4/4$100$1+60%24;xx/G:xx_xx/H:8_8/I:xx_xx/J:2~2@1",
    "v@a^r-a+r=a_00%00^00_00~00-2!1[xx$xx]xx/A:2-1-1@JPN~0/B:2_1_1@JPN|0/C:2+1+1@JPN&0/D:G5!7#0$4/4%100|1&60;24-xx/E:A5]9^0=4/4~100!1@60#24+xx]2$3|6[18&24]72=25^75~6#3_30;18$120&72%62[38|0]0-n^xx+xx~xx=xx@xx$xx!xx%xx#xx|xx|xx-xx&xx&xx+xx[xx;xx]xx;xx~xx~xx^xx^xx@xx[xx#xx=xx!xx~m2+p2!xx^xx/F:B5#11#0-4/4$100$1+60%24;xx/G:xx_xx/H:8_8/I:xx_xx/J:2~2@1",
    "c@r^a-r+a=r_00%00^00_00~00-1!2[xx$1]xx/A:2-1-1@JPN~0/B:2_1_1@JPN|0/C:2+1+1@JPN&0/D:A5!9#0$4/4%100|1&60;24-xx/E:B5]11^0=4/4~100!1@60#24+xx]3$2|12[12&48]48=50^50~7#2_36;11$144&48%75[25|0]0-n^xx+xx~xx=xx@xx$xx!xx%xx#xx|xx|xx-xx&xx&xx+xx[xx;xx]xx;xx~xx~xx^xx^xx@xx[xx#xx=xx!xx~m2+p1!xx^xx/F:C6#0#0-4/4$100$1+60%24;xx/G:xx_xx/H:8_8/I:xx_xx/J:2~2@1",
    "v@a^r-a+r=a_00%00^00_00~00-2!1[xx$xx]xx/A:2-1-1@JPN~0/B:2_1_1@JPN|0/C:2+1+1@JPN&0/D:A5!9#0$4/4%100|1&60;24-xx/E:B5]11^0=4/4~100!1@60#24+xx]3$2|12[12&48]48=50^50~7#2_36;11$144&48%75[25|0]0-n^xx+xx~xx=xx@xx$xx!xx%xx#xx|xx|xx-xx&xx&xx+xx[xx;xx]xx;xx~xx~xx^xx^xx@xx[xx#xx=xx!xx~m2+p1!xx^xx/F:C6#0#0-4/4$100$1+60%24;xx/G:xx_xx/H:8_8/I:xx_xx/J:2~2@1",
    "c@r^a-r+a=pau_00%00^00_00~00-1!2[xx$1]xx/A:2-1-1@JPN~0/B:2_1_1@JPN|0/C:xx+xx+xx@xx&xx/D:B5!11#0$4/4%100|1&60;24-xx/E:C6]0^0=4/4~100!1@60#24+xx]4$1|18[6&72]24=74^26~8#1_42;5$168&24%87[13|0]0-n^xx+xx~xx=xx@xx$xx!xx%xx#xx|xx|xx-xx&xx&xx+xx[xx;xx]xx;xx~xx~xx^xx^xx@xx[xx#xx=xx!xx~m1+xx!xx^xx/F:xx#xx#xx-xx$xx$xx+xx%xx;xx/G:xx_xx/H:8_8/I:xx_xx/J:2~2@1",
    "v@a^r-a+pau=xx_00%00^00_00~xx-2!1[xx$xx]xx/A:2-1-1@JPN~0/B:2_1_1@JPN|0/C:xx+xx+xx@xx&xx/D:B5!11#0$4/4%100|1&60;24-xx/E:C6]0^0=4/4~100!1@60#24+xx]4$1|18[6&72]24=74^26~8#1_42;5$168&24%87[13|0]0-n^xx+xx~xx=xx@xx$xx!xx%xx#xx|xx|xx-xx&xx&xx+xx[xx;xx]xx;xx~xx~xx^xx^xx@xx[xx#xx=xx!xx~m1+xx!xx^xx/F:xx#xx#xx-xx$xx$xx+xx%xx;xx/G:xx_xx/H:8_8/I:xx_xx/J:2~2@1",
    "p@r^a-pau+xx=xx_00%00^00_xx~xx-1!1[xx$xx]xx/A:2-1-1@JPN~0/B:1_1_1@xx|xx/C:xx+xx+xx@xx&xx/D:C6!0#0$4/4%100|1&60;24-xx/E:xx]xx^0=4/4~100!1@240#96+xx]1$1|0[24&0]96=0^100~xx#xx_xx;xx$xx&xx%xx[xx|0]0-n^xx+xx~xx=xx@xx$xx!xx%xx#xx|xx|xx-xx&xx&xx+xx[xx;xx]xx;xx~xx~xx^xx^xx@xx[xx#xx=xx!xx~xx+xx!xx^xx/F:xx#xx#xx-xx$xx$xx+xx%xx;xx/G:8_8/H:xx_xx/I:xx_xx/J:2~2@1",
];

#[test]
fn parse_example_line() {
    let line = EXAMPLE_LINE;

    let label = parse_label_line(line).expect("should parse");
    assert_eq!(label.phoneme.phoneme_id_current, "pau");
    assert_eq!(label.curr_note.reserved_3, "xx");
    assert_eq!(label.song.phrase_count, "1");
    assert_eq!(label.to_line(), line);
}

#[test]
fn parse_many_lines() {
    let lines = MANY_LINES;
    let parsed_labels: Vec<Label> = lines
        .iter()
        .map(|line| parse_label_line(line).expect("should parse"))
        .collect();
    let reconstructed_lines: Vec<String> = parsed_labels
        .iter()
        .map(|label| label.to_line())
        .collect();
    assert_eq!(lines.len(), parsed_labels.len());
    assert_eq!(lines, reconstructed_lines.as_slice());
}

/// The sections of a line and the fields of each, by the patterns of the
/// format: every field takes as few characters as it can.
fn fields_by_pattern(line: &str) -> Option<Vec<Vec<String>>> {
    let root = lazy_regex::Regex::new(
        r"^(.*?)/A:(.*?)/B:(.*?)/C:(.*?)/D:(.*?)/E:(.*?)/F:(.*?)/G:(.*?)/H:(.*?)/I:(.*?)/J:(.*)$",
    )
    .unwrap();
    let sections = [
        r"^(.+?)@(.+?)\^(.+?)-(.+?)\+(.+?)=(.+?)_(.+?)%(.+?)\^(.+?)_(.+?)~(.+?)-(.+?)!(.+?)\[(.+?)\$(.+?)\](.+?)$",
        r"^(.+?)-(.+?)-(.+?)@(.+?)~(.+?)$",
        r"^(.+?)_(.+?)_(.+?)@(.+?)\|(.+?)$",
        r"^(.+?)\+(.+?)\+(.+?)@(.+?)&(.+?)$",
        r"^(.+?)!(.+?)#(.+?)\$(.+?)%(.+?)\|(.+?)&(.+?);(.+?)-(.+?)$",
        r"^(.+?)\](.+?)\^(.+?)=(.+?)~(.+?)!(.+?)@(.+?)#(.+?)\+(.+?)\](.+?)\$(.+?)\|(.+?)\[(.+?)&(.+?)\](.+?)=(.+?)\^(.+?)~(.+?)#(.+?)_(.+?);(.+?)\$(.+?)&(.+?)%(.+?)\[(.+?)\|(.+?)\](.+?)-(.+?)\^(.+?)\+(.+?)~(.+?)=(.+?)@(.+?)\$(.+?)!(.+?)%(.+?)#(.+?)\|(.+?)\|(.+?)-(.+?)&(.+?)&(.+?)\+(.+?)\[(.+?);(.+?)\](.+?);(.+?)~(.+?)~(.+?)\^(.+?)\^(.+?)@(.+?)\[(.+?)#(.+?)=(.+?)!(.+?)~(.+?)\+(.+?)!(.+?)\^(.+?)$",
        r"^(.+?)#(.+?)#(.+?)-(.+?)\$(.+?)\$(.+?)\+(.+?)%(.+?);(.+?)$",
        r"^(.+?)_(.+?)$",
        r"^(.+?)_(.+?)$",
        r"^(.+?)_(.+?)$",
        r"^(.+?)~(.+?)@(.+?)$",
    ];
    let captures = root.captures(line)?;
    let mut all = Vec::new();
    for (k, pattern) in sections.iter().enumerate() {
        let text = captures.get(k + 1)?.as_str();
        let section = lazy_regex::Regex::new(pattern).unwrap();
        let fields = section.captures(text)?;
        all.push(
            (1..fields.len())
                .map(|i| fields.get(i).unwrap().as_str().to_string())
                .collect(),
        );
    }
    Some(all)
}

fn fields_of(label: &Label) -> Vec<Vec<String>> {
    (0..11)
        .map(|k| {
            label
                .section_fields(k)
                .iter()
                .map(|f| f.as_str().to_string())
                .collect()
        })
        .collect()
}

#[test]
fn fields_are_cut_as_the_patterns_cut_them() {
    let mut lines: Vec<String> = MANY_LINES.iter().map(|l| l.to_string()).collect();
    // Separators inside fields, and markers inside sections.
    lines.push(EXAMPLE_LINE.replace("p@xx^xx", "@@@^^^x"));
    lines.push(EXAMPLE_LINE.replace("/G:xx_xx", "/G:_a__b_"));
    lines.push(EXAMPLE_LINE.replace("/J:2~2@1", "/J:~~~@@@/A:/J:"));
    lines.push(EXAMPLE_LINE.replace("/A:xx-xx-xx@xx~xx", "/A:--x--@@~~/A:-"));
    lines.push(EXAMPLE_LINE.replace("C5#0#0-4/4$100", "##0##0--4/4$$100"));
    lines.push(EXAMPLE_LINE.replace("p@xx", " p @ \u{3000}xx\t"));
    lines.push(EXAMPLE_LINE.replace("2~2@1", "2~2@_1"));
    lines.push(EXAMPLE_LINE.replace("C5#0#0", "C5# 0# 0"));
    lines.push(EXAMPLE_LINE.replace("pau", "ぱう"));
    // Lines that are no labels.
    lines.push(EXAMPLE_LINE.replace("/G:xx_xx", "/G:xx_"));
    lines.push(EXAMPLE_LINE.replace("/G:xx_xx", "/G:_xx"));
    lines.push(EXAMPLE_LINE.replace("/H:", "/h:"));
    lines.push(EXAMPLE_LINE.replace("/A:", "/B:"));
    lines.push(EXAMPLE_LINE.replace("]xx/A:", "]/A:"));
    lines.push(String::new());
    for line in lines.iter() {
        let parsed = parse_label_line(line);
        match fields_by_pattern(line) {
            Some(fields) => {
                let label = parsed.expect("should parse");
                assert_eq!(fields_of(&label), fields, "{}", line);
                assert_eq!(&label.to_line(), line);
            }
            None => assert!(parsed.is_err(), "{}", line),
        }
    }
}

#[test]
fn fields_are_kept_as_they_stand() {
    let line = EXAMPLE_LINE.replace("C5#0#0", "C5# 0# 0").replace("2~2@1", "2~2@_1");
    let label = parse_label_line(&line).unwrap();
    assert_eq!(label.next_note.relative_pitch, " 0");
    assert_eq!(label.song.phrase_count, "_1");
    assert_eq!(label.to_line(), line);
}

#[test]
fn lines_without_markers_are_refused_at_the_root() {
    for line in ["", "p@xx", "a/A:b/B:c/C:d/D:e/E:f/F:g/G:h/H:i/I:j", "x/J:/I:/H:/G:/F:/E:/D:/C:/B:/A:"] {
        let e = parse_label_line(line).unwrap_err();
        assert_eq!(e.section, "root");
        assert_eq!(e.message, "missing required /A..../J sections");
        assert_eq!(e.describe(), "[root] missing required /A..../J sections");
    }
    // A label is one line.
    let broken = EXAMPLE_LINE.replace("/I:8_8", "/I:8_\n8");
    assert_eq!(parse_label_line(&broken).unwrap_err().section, "root");
    let e = parse_label_line(&format!("{}\n", EXAMPLE_LINE)).unwrap_err();
    assert_eq!(e.section, "root");
}

#[test]
fn the_first_section_that_does_not_split_is_reported() {
    let line = EXAMPLE_LINE.replace("/C:2+1+1@JPN&0", "/C:2+1+1@JPN").replace("/H:xx_xx", "/H:xx");
    let e = parse_label_line(&line).unwrap_err();
    assert_eq!(e.section, "C");
    assert_eq!(e.message, "format mismatch: 2+1+1@JPN");
    assert_eq!(e.describe(), "[C] format mismatch: 2+1+1@JPN");
}

#[test]
fn every_section_has_its_own_error() {
    // Each line lacks the last field of one section.
    let broken: [(&str, &str, &str); 11] = [
        ("P", "[xx$xx]xx/A:", "[xx$xx]/A:"),
        ("A", "/A:xx-xx-xx@xx~xx", "/A:xx-xx-xx@xx"),
        ("B", "/B:1_1_1@xx|xx", "/B:1_1_1@xx"),
        ("C", "/C:2+1+1@JPN&0", "/C:2+1+1@JPN"),
        ("D", ";xx-xx/E:", ";xx/E:"),
        ("E", "!xx^xx/F:", "!xx/F:"),
        ("F", "%24;xx/G:", "%24/G:"),
        ("G", "/G:xx_xx", "/G:xx"),
        ("H", "/H:xx_xx", "/H:xx"),
        ("I", "/I:8_8", "/I:8"),
        ("J", "/J:2~2@1", "/J:2~2"),
    ];
    for (name, from, to) in broken.iter() {
        assert!(EXAMPLE_LINE.contains(from));
        let e = parse_label_line(&EXAMPLE_LINE.replace(from, to)).unwrap_err();
        assert_eq!(e.section, *name);
        assert!(e.message.as_str().starts_with("format mismatch: "));
    }
    let e = parse_label_line(&EXAMPLE_LINE.replace("/J:2~2@1", "/J:2~2")).unwrap_err();
    assert_eq!((e.section, e.message.as_str()), ("J", "format mismatch: 2~2"));
    // An empty field and an empty section.
    let e = parse_label_line(&EXAMPLE_LINE.replace("/H:xx_xx", "/H:_")).unwrap_err();
    assert_eq!((e.section, e.message.as_str()), ("H", "format mismatch: _"));
    let e = parse_label_line(&EXAMPLE_LINE.replace("/G:xx_xx", "/G:")).unwrap_err();
    assert_eq!((e.section, e.message.as_str()), ("G", "format mismatch: "));
    // A second marker belongs to the section that it stands in.
    let doubled = EXAMPLE_LINE.replace("/B:", "/B:/B:");
    let label = parse_label_line(&doubled).unwrap();
    assert_eq!(label.curr_syllable.phoneme_count, "/B:1");
    assert_eq!(label.to_line(), doubled);
}

#[test]
fn a_blank_label_holds_xx_everywhere() {
    let label = Label::blank();
    for k in 0..11 {
        for field in label.section_fields(k).iter() {
            assert!(field.is_xx());
            assert_eq!(field.as_option(), None);
        }
    }
    assert_eq!(
        label.to_line(),
        "xx@xx^xx-xx+xx=xx_xx%xx^xx_xx~xx-xx!xx[xx$xx]xx/A:xx-xx-xx@xx~xx/B:xx_xx_xx@xx|xx/C:xx+xx+xx@xx&xx/D:xx!xx#xx$xx%xx|xx&xx;xx-xx/E:xx]xx^xx=xx~xx!xx@xx#xx+xx]xx$xx|xx[xx&xx]xx=xx^xx~xx#xx_xx;xx$xx&xx%xx[xx|xx]xx-xx^xx+xx~xx=xx@xx$xx!xx%xx#xx|xx|xx-xx&xx&xx+xx[xx;xx]xx;xx~xx~xx^xx^xx@xx[xx#xx=xx!xx~xx+xx!xx^xx/F:xx#xx#xx-xx$xx$xx+xx%xx;xx/G:xx_xx/H:xx_xx/I:xx_xx/J:xx~xx@xx"
    );
    assert_eq!(parse_label_line(&label.to_line()).unwrap(), label);
}
