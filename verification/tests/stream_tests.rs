use tcx_cadence::scanner::ScanError;
use tcx_cadence::speed::extract_speed_text;
use tcx_cadence::markers::has_speed_marker;
use tcx_cadence::stream::add_cadence;

fn lines_of(texts: &[&str]) -> Vec<String> {
    texts.iter().map(|t| String::from(*t)).collect()
}

fn cadence_of(speed_ms: f64) -> i32 {
    let ratio: f64 = 42.0 / 18.0;
    let wheel_diameter_m: f64 = 0.7;
    (speed_ms * (60.0 / std::f64::consts::PI) / (wheel_diameter_m * ratio)).trunc() as i32
}

fn cadences_of(lines: &Vec<String>) -> Vec<Option<i32>> {
    let mut out: Vec<Option<i32>> = Vec::new();
    for line in lines {
        if has_speed_marker(line) {
            let text = extract_speed_text(line).unwrap();
            let speed_ms: f64 = text.parse().unwrap();
            out.push(Some(cadence_of(speed_ms)));
        } else {
            out.push(None);
        }
    }
    out
}

#[test]
fn cadence_is_truncated_not_rounded() {
    assert_eq!(cadence_of(6.95), 81);
    assert_eq!(cadence_of(10.5), 122);
}

#[test]
fn record_goes_right_before_the_close_line() {
    let input = lines_of(&[
        "<Track>",
        "  <Trackpoint>",
        "    <Time>2020-01-01T10:00:00Z</Time>",
        "    <Extensions>",
        "      <ns3:TPX>",
        "        <ns3:Speed>10.5</ns3:Speed>",
        "      </ns3:TPX>",
        "    </Extensions>",
        "  </Trackpoint>",
        "</Track>",
    ]);
    let cadences = cadences_of(&input);
    let out = add_cadence(&input, &cadences).unwrap();
    let expected = lines_of(&[
        "<Track>",
        "  <Trackpoint>",
        "    <Time>2020-01-01T10:00:00Z</Time>",
        "    <Extensions>",
        "      <ns3:TPX>",
        "        <ns3:Speed>10.5</ns3:Speed>",
        "      </ns3:TPX>",
        "    </Extensions>",
        "            <Cadence>122</Cadence>",
        "  </Trackpoint>",
        "</Track>",
    ]);
    assert_eq!(out, expected);
}

#[test]
fn block_with_cadence_is_left_alone() {
    let input = lines_of(&[
        "  <Trackpoint>",
        "    <Cadence>77</Cadence>",
        "    <ns3:Speed>6.95</ns3:Speed>",
        "  </Trackpoint>",
        "  <Trackpoint>",
        "    <ns3:Speed>6.95</ns3:Speed>",
        "    <Cadence>77</Cadence>",
        "  </Trackpoint>",
    ]);
    let cadences = cadences_of(&input);
    assert_eq!(add_cadence(&input, &cadences), Ok(input.clone()));
}

#[test]
fn block_without_speed_is_left_alone() {
    let input = lines_of(&["  <Trackpoint>", "    <Time>t</Time>", "  </Trackpoint>"]);
    let cadences: Vec<Option<i32>> = vec![None, None, None];
    assert_eq!(add_cadence(&input, &cadences), Ok(input.clone()));
}

#[test]
fn each_block_is_judged_alone() {
    let input = lines_of(&[
        "  <Trackpoint>",
        "    <ns3:Speed>6.95</ns3:Speed>",
        "  </Trackpoint>",
        "  <Trackpoint>",
        "    <Time>t</Time>",
        "  </Trackpoint>",
        "  <Trackpoint>",
        "    <Cadence>60</Cadence>",
        "  </Trackpoint>",
        "  <Trackpoint>",
        "    <ns3:Speed>10.5</ns3:Speed>",
        "  </Trackpoint>",
    ]);
    let cadences = cadences_of(&input);
    let out = add_cadence(&input, &cadences).unwrap();
    let expected = lines_of(&[
        "  <Trackpoint>",
        "    <ns3:Speed>6.95</ns3:Speed>",
        "            <Cadence>81</Cadence>",
        "  </Trackpoint>",
        "  <Trackpoint>",
        "    <Time>t</Time>",
        "  </Trackpoint>",
        "  <Trackpoint>",
        "    <Cadence>60</Cadence>",
        "  </Trackpoint>",
        "  <Trackpoint>",
        "    <ns3:Speed>10.5</ns3:Speed>",
        "            <Cadence>122</Cadence>",
        "  </Trackpoint>",
    ]);
    assert_eq!(out, expected);
}

#[test]
fn output_has_one_line_more_for_each_record() {
    let input = lines_of(&[
        "    <ns3:Speed>1.5</ns3:Speed>",
        "  </Trackpoint>",
        "  </Trackpoint>",
        "    <ns3:Speed>2.5</ns3:Speed>",
        "    <ns3:Speed>3.5</ns3:Speed>",
        "  </Trackpoint>",
        "    <Cadence>1</Cadence>",
        "  </Trackpoint>",
    ]);
    let cadences: Vec<Option<i32>> =
        vec![Some(10), None, None, Some(20), Some(30), None, None, None];
    let out = add_cadence(&input, &cadences).unwrap();
    assert_eq!(out.len(), input.len() + 2);
    assert_eq!(out[1], "            <Cadence>10</Cadence>");
    assert_eq!(out[6], "            <Cadence>30</Cadence>");
}

#[test]
fn empty_input_gives_empty_output() {
    let input: Vec<String> = Vec::new();
    let cadences: Vec<Option<i32>> = Vec::new();
    assert_eq!(add_cadence(&input, &cadences), Ok(Vec::new()));
}

#[test]
fn speed_line_without_cadence_fails_the_scan() {
    let input = lines_of(&["  <Trackpoint>", "    <ns3:Speed>fast</ns3:Speed>", "  </Trackpoint>"]);
    let cadences: Vec<Option<i32>> = vec![None, None, None];
    assert_eq!(add_cadence(&input, &cadences), Err(ScanError::MalformedSpeed));
    let short: Vec<Option<i32>> = Vec::new();
    assert_eq!(add_cadence(&input, &short), Err(ScanError::MalformedSpeed));
}

#[test]
fn cadence_of_a_line_without_speed_is_not_read() {
    let input = lines_of(&["  <Trackpoint>", "    <Time>t</Time>", "  </Trackpoint>"]);
    let cadences: Vec<Option<i32>> = vec![Some(1), Some(2), Some(3), Some(4)];
    assert_eq!(add_cadence(&input, &cadences), Ok(input.clone()));
}

#[test]
fn speed_and_close_on_one_line() {
    let input = lines_of(&["<ns3:Speed>6.95</ns3:Speed></Trackpoint>"]);
    let cadences = cadences_of(&input);
    let out = add_cadence(&input, &cadences).unwrap();
    assert_eq!(
        out,
        lines_of(&["            <Cadence>81</Cadence>", "<ns3:Speed>6.95</ns3:Speed></Trackpoint>"])
    );
}
