use twitch_archiver::patch::patch_manifest;

fn patch_str(s: &str) -> String {
    let bytes: Vec<u8> = s.as_bytes().to_vec();
    String::from_utf8(patch_manifest(&bytes)).unwrap()
}

#[test]
fn excluded_rendition_flags_are_forced_on() {
    let manifest = "#EXTM3U\n#EXT-X-MEDIA:TYPE=VIDEO,GROUP-ID=\"chunked\",NAME=\"720p\",AUTOSELECT=NO,DEFAULT=NO,URI=\"x\"\n";
    let expected = "#EXTM3U\n#EXT-X-MEDIA:TYPE=VIDEO,GROUP-ID=\"chunked\",NAME=\"720p\",AUTOSELECT=YES,DEFAULT=YES,URI=\"x\"\n";
    assert_eq!(patch_str(manifest), expected);
}

#[test]
fn every_occurrence_is_replaced() {
    let manifest = "AUTOSELECT=NO,DEFAULT=NO\nmid\nAUTOSELECT=NO,DEFAULT=NO";
    let expected = "AUTOSELECT=YES,DEFAULT=YES\nmid\nAUTOSELECT=YES,DEFAULT=YES";
    assert_eq!(patch_str(manifest), expected);
}

#[test]
fn manifest_without_the_marker_is_unchanged() {
    let manifest = "#EXTM3U\n#EXT-X-MEDIA:AUTOSELECT=YES,DEFAULT=NO\nsegment.ts\n";
    assert_eq!(patch_str(manifest), manifest);
}

#[test]
fn near_misses_are_left_alone() {
    let manifest = "AUTOSELECT=NO,DEFAULT=N";
    assert_eq!(patch_str(manifest), manifest);
    let manifest = "AUTOSELECT=NO, DEFAULT=NO";
    assert_eq!(patch_str(manifest), manifest);
}

#[test]
fn empty_manifest_stays_empty() {
    assert_eq!(patch_str(""), "");
}

#[test]
fn replacement_does_not_rescan_its_own_output() {
    // Scanning is left to right without overlap: the text around a marker is
    // kept byte for byte even when it nearly forms another marker.
    let manifest = "AUTOSELECT=AUTOSELECT=NO,DEFAULT=NO,DEFAULT=NO";
    let expected = "AUTOSELECT=AUTOSELECT=YES,DEFAULT=YES,DEFAULT=NO";
    assert_eq!(patch_str(manifest), expected);
}
