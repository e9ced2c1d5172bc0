use bo::youtube::transcript::parse_transcript_markdown;
use bo::youtube::YoutubeError;

#[test]
fn transcript_segments_are_normalized_and_joined() {
    let xml = "<transcript><text start='0'>Hello   world</text><text start='1'>  </text><text start='2'>Second\nline</text></transcript>";
    assert_eq!(parse_transcript_markdown(xml).unwrap(), "Hello world\n\nSecond line");
}

#[test]
fn a_transcript_without_segments_is_empty() {
    assert!(matches!(parse_transcript_markdown("<transcript></transcript>"), Err(YoutubeError::EmptyTranscript)));
}

#[test]
fn timedtext_paragraphs_are_segments_and_entities_are_decoded() {
    let xml = "<timedtext><body><p t=\"0\">Tom &amp; Jerry</p><p t=\"1\"><![CDATA[a &lt; b]]></p></body></timedtext>";
    assert_eq!(parse_transcript_markdown(xml).unwrap(), "Tom & Jerry\n\na < b");
}

#[test]
fn malformed_transcript_xml_is_a_parse_error() {
    assert!(matches!(parse_transcript_markdown("<transcript><text>x</wrong></transcript>"), Err(YoutubeError::Parse(_))));
}
